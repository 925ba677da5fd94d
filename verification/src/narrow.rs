//! The narrowing kernel: what a variable's type becomes under an equality
//! comparison, an `instanceof` test, or an `in` test.

use vstd::prelude::*;
use crate::ast::Span;
use crate::diag::Diag;
use crate::env::Env;
use crate::env::access_property;
use crate::env::access_property_v;
use crate::env::chase_ref;
use crate::env::chase_ref_v;
use crate::env::extends_of;
use crate::env::extends_v;
use crate::env::has_overlap;
use crate::env::has_overlap_v;
use crate::facts::Name;
use crate::structural::ty_eq;
use crate::structural::type_eq;
use crate::ty::Kwd;
use crate::ty::Ty;
use crate::ty::TyKind;
use crate::ty::TyKindV;
use crate::ty::TyV;
use crate::ty::lemma_tys_view;
use crate::ty::ty_view;
use crate::ty::tys_view;
use crate::ty_ops::is_kwd_v;
use crate::ty_ops::kw_v;
use crate::ty_ops::mk_v;
use crate::ty_ops::normalize_v;
use crate::ty_ops::union_from;
use crate::ty_ops::union_v;

verus! {

// ------------------------------------------------------------------
// Equality narrowing.
// ------------------------------------------------------------------

/// Narrow one member of an already-normalized union against `eq`: an equal
/// member stays, two distinct enum variants leave nothing, anything else
/// becomes the compared type.
pub open spec fn flat_narrow_v(m: TyV, eq: TyV, ne: TyV) -> TyV {
    if ty_eq(m, eq) {
        m
    } else if ty_eq(normalize_v(m), ne) {
        m
    } else if normalize_v(m).kind is EnumVariant && ne.kind is EnumVariant {
        kw_v(Kwd::Never)
    } else {
        eq
    }
}

/// Narrow every member and drop the ones that become `never`.
pub open spec fn narrow_members_v(ms: Seq<TyV>, eq: TyV, ne: TyV) -> Seq<TyV>
    decreases ms,
{
    if ms.len() == 0 {
        Seq::empty()
    } else {
        let r = flat_narrow_v(ms[0], eq, ne);
        (if is_kwd_v(r, Kwd::Never) {
            Seq::<TyV>::empty()
        } else {
            seq![r]
        }) + narrow_members_v(ms.drop_first(), eq, ne)
    }
}

/// The type of a variable after `===` with a value of type `eq`:
/// an equal type stays; a union is narrowed memberwise, `never` members
/// dropped, and fixed; two distinct enum variants leave `never`; anything
/// else becomes the compared type.
pub open spec fn narrow_eq_v(orig: TyV, eq: TyV) -> TyV {
    if ty_eq(orig, eq) {
        orig
    } else {
        let no = normalize_v(orig);
        let ne = normalize_v(eq);
        if ty_eq(no, ne) {
            orig
        } else if no.kind matches TyKindV::Union(ms) {
            union_v(narrow_members_v(no.kind->Union_0, eq, ne))
        } else if no.kind is EnumVariant && ne.kind is EnumVariant {
            kw_v(Kwd::Never)
        } else {
            eq
        }
    }
}

/// Narrow one already-normalized union member against `eq`.
fn flat_narrow(m: &Ty, eq: &Ty, ne: &Ty) -> (r: Ty)
    requires ne@ == normalize_v(eq@),
    ensures r@ == flat_narrow_v(m@, eq@, ne@),
{
    if type_eq(m, eq) {
        return m.clone();
    }
    let mn = m.normalize();
    if type_eq(&mn, ne) {
        return m.clone();
    }
    let both_variants = mn.is_enum_variant() && ne.is_enum_variant();
    if both_variants {
        Ty::kw(Kwd::Never)
    } else {
        eq.clone()
    }
}

/// The type of a variable after `===` with a value of type `eq`.
#[verifier::loop_isolation(false)]
pub fn narrow_with_equality(orig: &Ty, eq: &Ty) -> (r: Ty)
    ensures r@ == narrow_eq_v(orig@, eq@),
{
    if type_eq(orig, eq) {
        return orig.clone();
    }
    let no = orig.normalize();
    let ne = eq.normalize();
    if type_eq(&no, &ne) {
        return orig.clone();
    }
    match &no.kind {
        TyKind::Union(ms) => {
            proof {
                lemma_tys_view(ms@);
                assert(no@.kind->Union_0 == tys_view(ms@));
            }
            let ghost s = tys_view(ms@);
            let mut kept: Vec<Ty> = Vec::new();
            let mut i: usize = 0;
            proof {
                assert(s.skip(0) =~= s);
                assert(tys_view(kept@) =~= Seq::<TyV>::empty());
            }
            while i < ms.len()
                invariant
                    i <= ms.len(),
                    ne@ == normalize_v(eq@),
                    narrow_members_v(s, eq@, ne@)
                        == tys_view(kept@) + narrow_members_v(s.skip(i as int), eq@, ne@),
                decreases ms@.len() - i as int,
            {
                proof {
                    lemma_tys_view(ms@);
                    lemma_tys_view(kept@);
                    assert(s.skip(i as int)[0] == s[i as int]);
                    assert(s.skip(i as int).drop_first() =~= s.skip(i as int + 1));
                    assert(s[i as int] == ty_view(ms@[i as int]));
                }
                let r = flat_narrow(&ms[i], eq, &ne);
                let ghost prev = kept@;
                if !r.is_never() {
                    kept.push(r);
                    proof {
                        lemma_tys_view(prev);
                        lemma_tys_view(kept@);
                        assert(kept@ =~= prev.push(kept@[kept@.len() - 1]));
                        assert(tys_view(kept@) =~= tys_view(prev).push(flat_narrow_v(s[i as int], eq@, ne@)));
                        assert(tys_view(kept@) + narrow_members_v(s.skip(i as int + 1), eq@, ne@)
                            =~= tys_view(prev) + narrow_members_v(s.skip(i as int), eq@, ne@));
                    }
                } else {
                    proof {
                        assert(tys_view(kept@) + narrow_members_v(s.skip(i as int + 1), eq@, ne@)
                            =~= tys_view(kept@) + narrow_members_v(s.skip(i as int), eq@, ne@));
                    }
                }
                i = i + 1;
            }
            proof {
                assert(s.skip(ms@.len() as int) =~= Seq::<TyV>::empty());
                assert(narrow_members_v(Seq::<TyV>::empty(), eq@, ne@) =~= Seq::<TyV>::empty());
                assert(tys_view(kept@) + Seq::<TyV>::empty() =~= tys_view(kept@));
                assert(tys_view(kept@) == narrow_members_v(s, eq@, ne@));
            }
            union_from(kept)
        },
        _ => {
            let both_variants = no.is_enum_variant() && ne.is_enum_variant();
            if both_variants {
                Ty::kw(Kwd::Never)
            } else {
                eq.clone()
            }
        },
    }
}


// ------------------------------------------------------------------
// `instanceof` narrowing.
// ------------------------------------------------------------------

/// Lift a class declaration to an instance of the class; leave any other
/// type alone.
pub open spec fn lift_classdef_v(t: TyV) -> TyV {
    match normalize_v(t).kind {
        TyKindV::ClassDef(d) => mk_v(TyKindV::Class(d)),
        _ => t,
    }
}

/// Lift a class declaration to an instance of the class.
fn lift_classdef(t: &Ty) -> (r: Ty)
    ensures r@ == lift_classdef_v(t@),
{
    let n = t.normalize();
    match n.kind {
        TyKind::ClassDef(d) => Ty { no_generalize: false, kind: TyKind::Class(d) },
        _ => t.clone(),
    }
}

/// Narrow an already-normalized, non-union, non-reference original type
/// under `x instanceof C`, where `ty` is the validated type of `C`.
pub open spec fn narrow_inst_flat_v(ty: TyV, no: TyV) -> TyV {
    if (is_kwd_v(no, Kwd::Str) || is_kwd_v(no, Kwd::Number) || is_kwd_v(no, Kwd::Boolean))
        && normalize_v(ty).kind is Interface {
        kw_v(Kwd::Never)
    } else {
        let ty2 = lift_classdef_v(ty);
        match extends_v(no, ty2, true) {
            Some(true) => lift_classdef_v(no),
            Some(false) => if no.kind is Interface && ty2.kind is Interface {
                ty2
            } else if !has_overlap_v(no, ty2) {
                kw_v(Kwd::Never)
            } else {
                ty2
            },
            None => ty2,
        }
    }
}

/// Narrow under `instanceof`, chasing references and taking unions apart.
pub open spec fn narrow_inst_v(env: Env, ty: TyV, no: TyV, span: Span, fuel: nat) -> Result<TyV, Diag>
    decreases fuel, no,
{
    if no.kind is Ref || no.kind is Query {
        if fuel == 0 {
            Ok(lift_classdef_v(ty))
        } else {
            match chase_ref_v(env, no, span, 1) {
                Ok(t2) => narrow_inst_v(env, ty, normalize_v(t2), span, (fuel - 1) as nat),
                Err(d) => Err(d),
            }
        }
    } else if no.kind matches TyKindV::Union(ms) {
        match narrow_inst_members_v(env, ty, no.kind->Union_0, span, fuel) {
            Ok(kept) => Ok(union_v(kept)),
            Err(d) => Err(d),
        }
    } else {
        Ok(narrow_inst_flat_v(ty, no))
    }
}

/// Narrow every member and drop the ones that become `never`.
pub open spec fn narrow_inst_members_v(env: Env, ty: TyV, ms: Seq<TyV>, span: Span, fuel: nat) -> Result<Seq<TyV>, Diag>
    decreases fuel, ms,
{
    if ms.len() == 0 {
        Ok(Seq::empty())
    } else {
        match narrow_inst_v(env, ty, ms[0], span, fuel) {
            Ok(r) => match narrow_inst_members_v(env, ty, ms.drop_first(), span, fuel) {
                Ok(rest) => Ok(
                    (if is_kwd_v(r, Kwd::Never) {
                        Seq::<TyV>::empty()
                    } else {
                        seq![r]
                    }) + rest,
                ),
                Err(d) => Err(d),
            },
            Err(d) => Err(d),
        }
    }
}

/// Narrow an already-normalized, non-union, non-reference original type
/// under `instanceof`.
fn narrow_inst_flat(ty: &Ty, no: &Ty) -> (r: Ty)
    ensures r@ == narrow_inst_flat_v(ty@, no@),
{
    let tyn = ty.normalize();
    if (no.is_kwd(Kwd::Str) || no.is_kwd(Kwd::Number) || no.is_kwd(Kwd::Boolean)) && tyn.is_interface() {
        return Ty::kw(Kwd::Never);
    }
    let ty2 = lift_classdef(ty);
    match extends_of(no, &ty2, true) {
        Some(b) => {
            if b {
                lift_classdef(no)
            } else {
                let both_ifaces = no.is_interface() && ty2.is_interface();
                if both_ifaces {
                    ty2
                } else if !has_overlap(no, &ty2) {
                    Ty::kw(Kwd::Never)
                } else {
                    ty2
                }
            }
        },
        None => ty2,
    }
}

/// Narrow under `x instanceof C`: `ty` is the validated type of `C`, `no`
/// the normalized type of `x`.
#[verifier::loop_isolation(false)]
pub fn narrow_inst(env: &Env, ty: &Ty, no: &Ty, span: Span, fuel: usize) -> (r: Result<Ty, Diag>)
    ensures
        match r {
            Ok(out) => narrow_inst_v(*env, ty@, no@, span, fuel as nat) == Ok::<TyV, Diag>(out@),
            Err(d) => narrow_inst_v(*env, ty@, no@, span, fuel as nat) == Err::<TyV, Diag>(d),
        },
    decreases fuel as nat, no@,
{
    let is_refq = match &no.kind {
        TyKind::Ref(_) => true,
        TyKind::Query(_) => true,
        _ => false,
    };
    if is_refq {
        if fuel == 0 {
            return Ok(lift_classdef(ty));
        }
        match chase_ref(env, no, span, 1) {
            Ok(t2) => {
                let t2n = t2.normalize();
                return narrow_inst(env, ty, &t2n, span, fuel - 1);
            },
            Err(d) => {
                return Err(d);
            },
        }
    }
    match &no.kind {
        TyKind::Union(ms) => {
            proof {
                lemma_tys_view(ms@);
                assert(no@.kind->Union_0 == tys_view(ms@));
            }
            let ghost s = tys_view(ms@);
            let mut kept: Vec<Ty> = Vec::new();
            let mut i: usize = 0;
            proof {
                assert(s.skip(0) =~= s);
                assert(tys_view(kept@) =~= Seq::<TyV>::empty());
            }
            while i < ms.len()
                invariant
                    i <= ms.len(),
                    narrow_inst_members_v(*env, ty@, s, span, fuel as nat)
                        == match narrow_inst_members_v(*env, ty@, s.skip(i as int), span, fuel as nat) {
                            Ok(rest) => Ok::<Seq<TyV>, Diag>(tys_view(kept@) + rest),
                            Err(d) => Err::<Seq<TyV>, Diag>(d),
                        },
                decreases ms@.len() - i as int,
            {
                proof {
                    lemma_tys_view(ms@);
                    lemma_tys_view(kept@);
                    assert(s.skip(i as int)[0] == s[i as int]);
                    assert(s.skip(i as int).drop_first() =~= s.skip(i as int + 1));
                    assert(s[i as int] == ty_view(ms@[i as int]));
                    assert(decreases_to!(s => s[i as int]));
                }
                let m = &ms[i];
                let r = match narrow_inst(env, ty, m, span, fuel) {
                    Ok(r) => r,
                    Err(d) => {
                        return Err(d);
                    },
                };
                let ghost prev = kept@;
                if !r.is_never() {
                    kept.push(r);
                    proof {
                        lemma_tys_view(prev);
                        lemma_tys_view(kept@);
                        assert(kept@ =~= prev.push(kept@[kept@.len() - 1]));
                        assert(tys_view(kept@) =~= tys_view(prev).push(kept@[kept@.len() - 1]@));
                        assert forall|rest: Seq<TyV>| true implies tys_view(prev)
                            + (seq![kept@[kept@.len() - 1]@] + rest) =~= tys_view(kept@) + rest by {}
                    }
                }
                i = i + 1;
            }
            proof {
                assert(s.skip(ms@.len() as int) =~= Seq::<TyV>::empty());
                assert(narrow_inst_members_v(*env, ty@, s.skip(ms@.len() as int), span, fuel as nat)
                    == Ok::<Seq<TyV>, Diag>(Seq::<TyV>::empty()));
                assert(tys_view(kept@) + Seq::<TyV>::empty() =~= tys_view(kept@));
            }
            Ok(union_from(kept))
        },
        _ => Ok(narrow_inst_flat(ty, no)),
    }
}

/// Narrow under `instanceof`: normalize the original type, then take it
/// apart.
pub fn narrow_with_instanceof(env: &Env, ty: &Ty, orig: &Ty, span: Span, fuel: usize) -> (r: Result<Ty, Diag>)
    ensures
        match r {
            Ok(out) => narrow_inst_v(*env, ty@, normalize_v(orig@), span, fuel as nat) == Ok::<TyV, Diag>(out@),
            Err(d) => narrow_inst_v(*env, ty@, normalize_v(orig@), span, fuel as nat) == Err::<TyV, Diag>(d),
        },
{
    let no = orig.normalize();
    narrow_inst(env, ty, &no, span, fuel)
}

// ------------------------------------------------------------------
// `in` narrowing.
// ------------------------------------------------------------------

/// The members that structurally offer the property.
pub open spec fn filter_with_prop_v(s: Seq<TyV>, p: crate::ty::Sym) -> Seq<TyV>
    decreases s,
{
    if s.len() == 0 {
        Seq::empty()
    } else {
        (if access_property_v(s[0], p) is Some {
            seq![s[0]]
        } else {
            Seq::<TyV>::empty()
        }) + filter_with_prop_v(s.drop_first(), p)
    }
}

/// Retain the members of a union that structurally have property `p`; any
/// other type stays whole.
pub open spec fn filter_types_with_property_v(t: TyV, p: crate::ty::Sym) -> TyV {
    match t.kind {
        TyKindV::Union(ms) => union_v(filter_with_prop_v(ms, p)),
        _ => t,
    }
}

/// Retain the members of a union that structurally have property `p`.
#[verifier::loop_isolation(false)]
pub fn filter_types_with_property(t: &Ty, p: crate::ty::Sym) -> (r: Ty)
    ensures r@ == filter_types_with_property_v(t@, p),
{
    match &t.kind {
        TyKind::Union(ms) => {
            proof {
                lemma_tys_view(ms@);
                assert(t@.kind->Union_0 == tys_view(ms@));
            }
            let ghost s = tys_view(ms@);
            let mut kept: Vec<Ty> = Vec::new();
            let mut i: usize = 0;
            proof {
                assert(s.skip(0) =~= s);
                assert(tys_view(kept@) =~= Seq::<TyV>::empty());
            }
            while i < ms.len()
                invariant
                    i <= ms.len(),
                    filter_with_prop_v(s, p) == tys_view(kept@) + filter_with_prop_v(s.skip(i as int), p),
                decreases ms@.len() - i as int,
            {
                proof {
                    lemma_tys_view(ms@);
                    lemma_tys_view(kept@);
                    assert(s.skip(i as int)[0] == s[i as int]);
                    assert(s.skip(i as int).drop_first() =~= s.skip(i as int + 1));
                    assert(s[i as int] == ty_view(ms@[i as int]));
                }
                let has = match access_property(&ms[i], p) {
                    Some(_) => true,
                    None => false,
                };
                let ghost prev = kept@;
                if has {
                    let c = ms[i].clone();
                    kept.push(c);
                    proof {
                        lemma_tys_view(prev);
                        lemma_tys_view(kept@);
                        assert(kept@ =~= prev.push(kept@[kept@.len() - 1]));
                        assert(tys_view(kept@) =~= tys_view(prev).push(s[i as int]));
                        assert(tys_view(kept@) + filter_with_prop_v(s.skip(i as int + 1), p)
                            =~= tys_view(prev) + filter_with_prop_v(s.skip(i as int), p));
                    }
                } else {
                    proof {
                        assert(tys_view(kept@) + filter_with_prop_v(s.skip(i as int + 1), p)
                            =~= tys_view(kept@) + filter_with_prop_v(s.skip(i as int), p));
                    }
                }
                i = i + 1;
            }
            proof {
                assert(s.skip(ms@.len() as int) =~= Seq::<TyV>::empty());
                assert(filter_with_prop_v(Seq::<TyV>::empty(), p) =~= Seq::<TyV>::empty());
                assert(tys_view(kept@) + Seq::<TyV>::empty() =~= tys_view(kept@));
                assert(tys_view(kept@) == filter_with_prop_v(s, p));
            }
            union_from(kept)
        },
        _ => t.clone(),
    }
}

// ------------------------------------------------------------------
// Equality facts for a name.
// ------------------------------------------------------------------

/// The candidate members of an object type under `obj.prop === eq`: those
/// whose property has the compared type, or a type parameter, which might.
pub open spec fn eq_candidates_v(env: Env, ms: Seq<TyV>, p: crate::ty::Sym, eq: TyV, span: Span, fuel: nat) -> Seq<TyV>
    decreases ms,
{
    if ms.len() == 0 {
        Seq::empty()
    } else {
        let keep = match access_property_v(ms[0], p) {
            Some(pt) => match chase_ref_v(env, pt, span, fuel) {
                Ok(pt2) => pt2.kind is Param || ty_eq(pt2, eq),
                Err(_) => false,
            },
            None => false,
        };
        (if keep {
            seq![ms[0]]
        } else {
            Seq::<TyV>::empty()
        }) + eq_candidates_v(env, ms.drop_first(), p, eq, span, fuel)
    }
}

/// The refined name and type under an equality test, per the shape of the
/// dotted name: a single identifier is narrowed against the compared type;
/// `obj.prop` keeps the union members whose property could equal it; longer
/// names are not implemented in this engine.
pub open spec fn calc_eq_facts_v(env: Env, name: Seq<crate::ty::Sym>, eq: TyV, span: Span, fuel: nat)
    -> Result<(Seq<crate::ty::Sym>, TyV), Diag> {
    if name.len() == 1 {
        match env.spec_type_of_var(name[0]) {
            Some(orig) => Ok((name, narrow_eq_v(orig, eq))),
            None => Err(Diag::NoSuchVar { span, sym: name[0] }),
        }
    } else if name.len() != 2 {
        Err(Diag::Unimplemented { span })
    } else {
        match env.spec_type_of_var(name[0]) {
            Some(t) => match chase_ref_v(env, t, span, fuel) {
                Ok(t2) => match t2.kind {
                    TyKindV::Union(ms) => Ok((
                        seq![name[0]],
                        union_v(eq_candidates_v(env, ms, name[1], normalize_v(eq), span, fuel)),
                    )),
                    _ => Ok((name, normalize_v(eq))),
                },
                Err(d) => Err(d),
            },
            None => Err(Diag::NoSuchVar { span, sym: name[0] }),
        }
    }
}

/// Compute the refined name and type under an equality test.
#[verifier::loop_isolation(false)]
pub fn calc_type_facts_for_equality(env: &Env, name: &Name, eq: &Ty, span: Span, fuel: usize)
    -> (r: Result<(Name, Ty), Diag>)
    requires name.wf(),
    ensures
        match r {
            Ok(p) => calc_eq_facts_v(*env, name@, eq@, span, fuel as nat)
                == Ok::<(Seq<crate::ty::Sym>, TyV), Diag>((p.0@, p.1@)) && p.0.wf(),
            Err(d) => calc_eq_facts_v(*env, name@, eq@, span, fuel as nat)
                == Err::<(Seq<crate::ty::Sym>, TyV), Diag>(d),
        },
{
    if name.len() == 1 {
        let orig = match env.type_of_var(name.segment(0), span) {
            Ok(t) => t,
            Err(d) => {
                return Err(d);
            },
        };
        let narrowed = narrow_with_equality(&orig, eq);
        return Ok((name.clone(), narrowed));
    }
    if name.len() != 2 {
        return Err(Diag::Unimplemented { span });
    }
    let t = match env.type_of_var(name.segment(0), span) {
        Ok(t) => t,
        Err(d) => {
            return Err(d);
        },
    };
    let t2 = match chase_ref(env, &t, span, fuel) {
        Ok(t2) => t2,
        Err(d) => {
            return Err(d);
        },
    };
    let p = name.segment(1);
    let ne = eq.normalize();
    match &t2.kind {
        TyKind::Union(ms) => {
            proof {
                lemma_tys_view(ms@);
                assert(t2@.kind->Union_0 == tys_view(ms@));
            }
            let ghost s = tys_view(ms@);
            let mut kept: Vec<Ty> = Vec::new();
            let mut i: usize = 0;
            proof {
                assert(s.skip(0) =~= s);
                assert(tys_view(kept@) =~= Seq::<TyV>::empty());
            }
            while i < ms.len()
                invariant
                    i <= ms.len(),
                    ne@ == normalize_v(eq@),
                    eq_candidates_v(*env, s, p, ne@, span, fuel as nat)
                        == tys_view(kept@) + eq_candidates_v(*env, s.skip(i as int), p, ne@, span, fuel as nat),
                decreases ms@.len() - i as int,
            {
                proof {
                    lemma_tys_view(ms@);
                    lemma_tys_view(kept@);
                    assert(s.skip(i as int)[0] == s[i as int]);
                    assert(s.skip(i as int).drop_first() =~= s.skip(i as int + 1));
                    assert(s[i as int] == ty_view(ms@[i as int]));
                }
                let keep = match access_property(&ms[i], p) {
                    Some(pt) => {
                        match chase_ref(env, &pt, span, fuel) {
                            Ok(pt2) => pt2.is_type_param() || type_eq(&pt2, &ne),
                            Err(_) => false,
                        }
                    },
                    None => false,
                };
                let ghost prev = kept@;
                if keep {
                    let c = ms[i].clone();
                    kept.push(c);
                    proof {
                        lemma_tys_view(prev);
                        lemma_tys_view(kept@);
                        assert(kept@ =~= prev.push(kept@[kept@.len() - 1]));
                        assert(tys_view(kept@) =~= tys_view(prev).push(s[i as int]));
                        assert(tys_view(kept@) + eq_candidates_v(*env, s.skip(i as int + 1), p, ne@, span, fuel as nat)
                            =~= tys_view(prev) + eq_candidates_v(*env, s.skip(i as int), p, ne@, span, fuel as nat));
                    }
                } else {
                    proof {
                        assert(tys_view(kept@) + eq_candidates_v(*env, s.skip(i as int + 1), p, ne@, span, fuel as nat)
                            =~= tys_view(kept@) + eq_candidates_v(*env, s.skip(i as int), p, ne@, span, fuel as nat));
                    }
                }
                i = i + 1;
            }
            proof {
                assert(s.skip(ms@.len() as int) =~= Seq::<TyV>::empty());
                assert(eq_candidates_v(*env, s.skip(ms@.len() as int), p, ne@, span, fuel as nat)
                    =~= Seq::<TyV>::empty());
                assert(tys_view(kept@) + Seq::<TyV>::empty() =~= tys_view(kept@));
                assert(tys_view(kept@) == eq_candidates_v(*env, s, p, ne@, span, fuel as nat));
            }
            let base = Name::ident(name.segment(0));
            Ok((base, union_from(kept)))
        },
        _ => Ok((name.clone(), ne)),
    }
}

} // verus!
