//! The declaration environment and the decidable structural fragment of the
//! subtype, overlap and assignability oracles that the checker consults.
//!
//! The oracles here decide the cases the narrowing engine needs — literals
//! against their base keywords, nominal class chains, one-step interface
//! extension, unions memberwise — and answer `None` (for `extends`) where a
//! type variable or an unhandled pair leaves the question open.

use vstd::prelude::*;
use crate::diag::Diag;
use crate::ast::Span;
use crate::facts::Name;
use crate::facts::VarMap;
use crate::structural::class_eq;
use crate::structural::ty_eq;
use crate::structural::type_eq;
use crate::ty::ClassDef;
use crate::ty::ClassV;
use crate::ty::ElemV;
use crate::ty::InterfaceDef;
use crate::ty::Kwd;
use crate::ty::LitVal;
use crate::ty::Sym;
use crate::ty::Ty;
use crate::ty::TyKind;
use crate::ty::TyKindV;
use crate::ty::TyV;
use crate::ty::TypeElement;
use crate::ty::class_view;
use crate::ty::elems_view;
use crate::ty::iface_view;
use crate::ty::lemma_elems_view;
use crate::ty::lemma_tys_view;
use crate::ty::ty_view;
use crate::ty::tys_view;

verus! {

/// The declaration environment: the types of variables, and the definitions
/// of named type references.
pub struct Env {
    pub vars: VarMap,
    pub types: VarMap,
}

impl Env {
    /// Well-formed: both tables have unique keys.
    pub open spec fn wf(&self) -> bool {
        self.vars.wf() && self.types.wf()
    }

    /// An empty environment.
    pub fn new() -> (r: Env)
        ensures
            r.wf(),
            forall|k: Seq<Sym>| #[trigger] r.vars.spec_get(k) is None,
            forall|k: Seq<Sym>| #[trigger] r.types.spec_get(k) is None,
    {
        Env { vars: VarMap::empty(), types: VarMap::empty() }
    }

    /// The declared type of a variable.
    pub open spec fn spec_type_of_var(&self, s: Sym) -> Option<TyV> {
        self.vars.spec_get(seq![s])
    }

    /// Resolve an identifier's declared type.
    pub fn type_of_var(&self, s: Sym, span: Span) -> (r: Result<Ty, Diag>)
        ensures
            match r {
                Ok(t) => self.spec_type_of_var(s) == Some(t@),
                Err(d) => self.spec_type_of_var(s) is None && d == (Diag::NoSuchVar { span, sym: s }),
            },
    {
        let n = Name::ident(s);
        match self.vars.get(&n) {
            Some(t) => Ok(t),
            None => Err(Diag::NoSuchVar { span, sym: s }),
        }
    }

    /// The definition of a named type reference.
    pub open spec fn spec_type_def(&self, s: Sym) -> Option<TyV> {
        self.types.spec_get(seq![s])
    }

    /// Resolve a named type reference one layer.
    pub fn type_def(&self, s: Sym, span: Span) -> (r: Result<Ty, Diag>)
        ensures
            match r {
                Ok(t) => self.spec_type_def(s) == Some(t@),
                Err(d) => self.spec_type_def(s) is None && d == (Diag::UnresolvedReference { span }),
            },
    {
        let n = Name::ident(s);
        match self.types.get(&n) {
            Some(t) => Ok(t),
            None => Err(Diag::UnresolvedReference { span }),
        }
    }
}

// ------------------------------------------------------------------
// Property access.
// ------------------------------------------------------------------

/// The type of the first property member with the given key.
pub open spec fn prop_of_elems_v(es: Seq<ElemV>, key: Sym) -> Option<TyV>
    decreases es,
{
    if es.len() == 0 {
        None
    } else {
        match es[0] {
            ElemV::Property(k, t) => if k == key {
                Some(t)
            } else {
                prop_of_elems_v(es.drop_first(), key)
            },
            _ => prop_of_elems_v(es.drop_first(), key),
        }
    }
}

/// Structural property access on object-like types.
pub open spec fn access_property_v(t: TyV, key: Sym) -> Option<TyV> {
    match t.kind {
        TyKindV::TypeLit(es) => prop_of_elems_v(es, key),
        TyKindV::Interface(d) => prop_of_elems_v(d.body, key),
        TyKindV::Class(d) => prop_of_elems_v(d.body, key),
        TyKindV::ClassDef(d) => prop_of_elems_v(d.body, key),
        _ => None,
    }
}

/// Find the first property member with the given key.
#[verifier::loop_isolation(false)]
fn prop_of_elems(es: &Vec<TypeElement>, key: Sym) -> (r: Option<Ty>)
    ensures
        match r {
            Some(t) => prop_of_elems_v(elems_view(es@), key) == Some(t@),
            None => prop_of_elems_v(elems_view(es@), key) is None,
        },
{
    proof {
        lemma_elems_view(es@);
    }
    let ghost s = elems_view(es@);
    let mut i: usize = 0;
    proof {
        assert(s.skip(0) =~= s);
    }
    while i < es.len()
        invariant
            i <= es.len(),
            prop_of_elems_v(s, key) == prop_of_elems_v(s.skip(i as int), key),
        decreases es@.len() - i as int,
    {
        proof {
            assert(s.skip(i as int)[0] == s[i as int]);
            assert(s.skip(i as int).drop_first() =~= s.skip(i as int + 1));
        }
        match &es[i] {
            TypeElement::Property(k, t) => {
                if *k == key {
                    return Some(t.clone());
                }
            },
            _ => {},
        }
        i = i + 1;
    }
    proof {
        assert(s.skip(es@.len() as int) =~= Seq::<ElemV>::empty());
    }
    None
}

/// Structural property access on object-like types.
pub fn access_property(t: &Ty, key: Sym) -> (r: Option<Ty>)
    ensures
        match r {
            Some(out) => access_property_v(t@, key) == Some(out@),
            None => access_property_v(t@, key) is None,
        },
{
    match &t.kind {
        TyKind::TypeLit(es) => {
            proof {
                assert(t@.kind->TypeLit_0 == elems_view(es@));
            }
            prop_of_elems(es, key)
        },
        TyKind::Interface(d) => {
            proof {
                assert(t@.kind->Interface_0 == iface_view(**d));
                assert(iface_view(**d).body == elems_view(d.body@));
            }
            prop_of_elems(&d.body, key)
        },
        TyKind::Class(d) => {
            proof {
                assert(t@.kind->Class_0 == class_view(**d));
                assert(class_view(**d).body == elems_view(d.body@));
            }
            prop_of_elems(&d.body, key)
        },
        TyKind::ClassDef(d) => {
            proof {
                assert(t@.kind->ClassDef_0 == class_view(**d));
                assert(class_view(**d).body == elems_view(d.body@));
            }
            prop_of_elems(&d.body, key)
        },
        _ => None,
    }
}

/// Whether the members include a call or construct signature, which makes
/// an object type assignable to the built-in `Function` interface.
pub open spec fn function_like_v(es: Seq<ElemV>) -> bool {
    exists|i: int| 0 <= i < es.len() && ((#[trigger] es[i]) is Call || es[i] is Constructor)
}

/// Whether the members include a call or construct signature.
#[verifier::loop_isolation(false)]
pub fn function_like(es: &Vec<TypeElement>) -> (r: bool)
    ensures r == function_like_v(elems_view(es@)),
{
    proof {
        lemma_elems_view(es@);
    }
    let ghost s = elems_view(es@);
    let mut i: usize = 0;
    while i < es.len()
        invariant
            i <= es.len(),
            forall|j: int| 0 <= j < i as int ==> !((#[trigger] s[j]) is Call || s[j] is Constructor),
        decreases es@.len() - i as int,
    {
        match &es[i] {
            TypeElement::Call => {
                assert(s[i as int] is Call);
                return true;
            },
            TypeElement::Constructor => {
                assert(s[i as int] is Constructor);
                return true;
            },
            _ => {},
        }
        i = i + 1;
    }
    false
}

// ------------------------------------------------------------------
// The subtype fragment.
// ------------------------------------------------------------------

/// Whether class `a`'s superclass chain reaches a class equal to `b`.
pub open spec fn class_chain_extends_v(a: ClassV, b: ClassV) -> bool
    decreases a,
{
    class_eq(a, b) || (match a.super_class {
        Some(t) => match t.kind {
            TyKindV::Class(p) => class_chain_extends_v(p, b),
            TyKindV::ClassDef(p) => class_chain_extends_v(p, b),
            _ => false,
        },
        None => false,
    })
}

/// Whether interface `a` lists a type equal to `sup` among its extended
/// types; the fragment decides one step only.
pub open spec fn iface_one_step_v(a: crate::ty::InterfaceV, sup: TyV) -> bool {
    exists|i: int| 0 <= i < a.extends.len() && ty_eq(#[trigger] a.extends[i], sup)
}

/// Whether a literal belongs to a base keyword.
pub open spec fn lit_of_kwd_v(l: LitVal, k: Kwd) -> bool {
    match l {
        LitVal::Num(_) => k == Kwd::Number,
        LitVal::Str(_) => k == Kwd::Str,
        LitVal::Bool(_) => k == Kwd::Boolean,
        LitVal::BigInt(_) => k == Kwd::BigInt,
    }
}

/// The three-valued subtype fragment: `Some` where this fragment decides,
/// `None` where a type variable or an unhandled pair leaves it open. With
/// `disallow_different_classes`, two nominally unrelated classes are
/// definitely non-extending.
pub open spec fn extends_v(sub: TyV, sup: TyV, disallow_different_classes: bool) -> Option<bool> {
    if ty_eq(sub, sup) {
        Some(true)
    } else if sub.kind == TyKindV::Keyword(Kwd::Never) {
        Some(true)
    } else if sup.kind == TyKindV::Keyword(Kwd::Any) || sup.kind == TyKindV::Keyword(Kwd::Unknown) {
        Some(true)
    } else if sub.kind is Param || sup.kind is Param {
        None
    } else {
        match (sub.kind, sup.kind) {
            (TyKindV::Lit(l), TyKindV::Keyword(k)) => Some(lit_of_kwd_v(l, k)),
            (TyKindV::Lit(_), TyKindV::Lit(_)) => Some(false),
            (TyKindV::Keyword(_), TyKindV::Keyword(_)) => Some(false),
            (TyKindV::EnumVariant(e, _), TyKindV::Enum(e2)) => Some(e == e2),
            (TyKindV::Class(a), TyKindV::Class(b)) => if class_chain_extends_v(a, b) {
                Some(true)
            } else if disallow_different_classes {
                Some(false)
            } else {
                None
            },
            (TyKindV::ClassDef(a), TyKindV::ClassDef(b)) => if class_chain_extends_v(a, b) {
                Some(true)
            } else if disallow_different_classes {
                Some(false)
            } else {
                None
            },
            (TyKindV::Interface(a), TyKindV::Interface(_)) => Some(iface_one_step_v(a, sup)),
            _ => None,
        }
    }
}

/// Whether class `a`'s superclass chain reaches a class equal to `b`.
pub fn class_chain_extends(a: &ClassDef, b: &ClassDef) -> (r: bool)
    ensures r == class_chain_extends_v(class_view(*a), class_view(*b)),
    decreases class_view(*a),
{
    let ghost av = class_view(*a);
    if eq_class_defs(a, b) {
        return true;
    }
    match &a.super_class {
        Some(t) => {
            proof {
                assert(av.super_class == Some(Box::new(ty_view(**t))));
                assert(decreases_to!(av => av.super_class));
                assert(decreases_to!(av.super_class => av.super_class->0));
            }
            match &t.kind {
                TyKind::Class(p) => {
                    proof {
                        let tv = ty_view(**t);
                        assert(tv.kind->Class_0 == class_view(**p));
                        assert(decreases_to!(tv => tv.kind));
                        assert(decreases_to!(tv.kind => tv.kind->Class_0));
                    }
                    class_chain_extends(p, b)
                },
                TyKind::ClassDef(p) => {
                    proof {
                        let tv = ty_view(**t);
                        assert(tv.kind->ClassDef_0 == class_view(**p));
                        assert(decreases_to!(tv => tv.kind));
                        assert(decreases_to!(tv.kind => tv.kind->ClassDef_0));
                    }
                    class_chain_extends(p, b)
                },
                _ => false,
            }
        },
        None => false,
    }
}

/// Decide structural equality of two class definitions.
fn eq_class_defs(a: &ClassDef, b: &ClassDef) -> (r: bool)
    ensures r == class_eq(class_view(*a), class_view(*b)),
{
    let ta = Ty { no_generalize: false, kind: TyKind::Class(Box::new(a.clone())) };
    let tb = Ty { no_generalize: false, kind: TyKind::Class(Box::new(b.clone())) };
    type_eq(&ta, &tb)
}

/// Whether interface `a` lists a type equal to `sup` among its extends.
#[verifier::loop_isolation(false)]
fn iface_one_step(a: &InterfaceDef, sup: &Ty) -> (r: bool)
    ensures r == iface_one_step_v(iface_view(*a), sup@),
{
    proof {
        lemma_tys_view(a.extends@);
    }
    let ghost s = tys_view(a.extends@);
    let mut i: usize = 0;
    while i < a.extends.len()
        invariant
            i <= a.extends.len(),
            forall|j: int| 0 <= j < i as int ==> !ty_eq(#[trigger] s[j], sup@),
        decreases a.extends@.len() - i as int,
    {
        if type_eq(&a.extends[i], sup) {
            proof {
                assert(iface_view(*a).extends == s);
                assert(ty_eq(s[i as int], sup@));
            }
            return true;
        }
        i = i + 1;
    }
    false
}

/// The three-valued subtype fragment.
pub fn extends_of(sub: &Ty, sup: &Ty, disallow_different_classes: bool) -> (r: Option<bool>)
    ensures r == extends_v(sub@, sup@, disallow_different_classes),
{
    if type_eq(sub, sup) {
        return Some(true);
    }
    if sub.is_kwd(Kwd::Never) {
        return Some(true);
    }
    if sup.is_kwd(Kwd::Any) || sup.is_kwd(Kwd::Unknown) {
        return Some(true);
    }
    if sub.is_type_param() || sup.is_type_param() {
        return None;
    }
    match (&sub.kind, &sup.kind) {
        (TyKind::Lit(l), TyKind::Keyword(k)) => {
            let ok = match l {
                LitVal::Num(_) => *k == Kwd::Number,
                LitVal::Str(_) => *k == Kwd::Str,
                LitVal::Bool(_) => *k == Kwd::Boolean,
                LitVal::BigInt(_) => *k == Kwd::BigInt,
            };
            Some(ok)
        },
        (TyKind::Lit(_), TyKind::Lit(_)) => Some(false),
        (TyKind::Keyword(_), TyKind::Keyword(_)) => Some(false),
        (TyKind::EnumVariant(e, _), TyKind::Enum(e2)) => Some(*e == *e2),
        (TyKind::Class(a), TyKind::Class(b)) => {
            if class_chain_extends(a, b) {
                Some(true)
            } else if disallow_different_classes {
                Some(false)
            } else {
                None
            }
        },
        (TyKind::ClassDef(a), TyKind::ClassDef(b)) => {
            if class_chain_extends(a, b) {
                Some(true)
            } else if disallow_different_classes {
                Some(false)
            } else {
                None
            }
        },
        (TyKind::Interface(a), TyKind::Interface(_)) => Some(iface_one_step(a, sup)),
        _ => None,
    }
}


// ------------------------------------------------------------------
// The overlap and assignability fragments.
// ------------------------------------------------------------------

/// The structural overlap fragment: whether two types share a value, as far
/// as this fragment sees. `any`, `unknown` and type parameters overlap
/// everything; unions overlap memberwise; literals overlap their base
/// keyword; classes overlap along their chains; what is left falls back on
/// the subtype fragment.
pub open spec fn has_overlap_v(a: TyV, b: TyV) -> bool
    decreases a, b,
{
    if a.kind == TyKindV::Keyword(Kwd::Any) || a.kind == TyKindV::Keyword(Kwd::Unknown)
        || b.kind == TyKindV::Keyword(Kwd::Any) || b.kind == TyKindV::Keyword(Kwd::Unknown) {
        true
    } else if ty_eq(a, b) {
        true
    } else if a.kind matches TyKindV::Union(ts) {
        exists|i: int| 0 <= i < (a.kind->Union_0).len() && has_overlap_v(#[trigger] (a.kind->Union_0)[i], b)
    } else if b.kind matches TyKindV::Union(ts) {
        exists|j: int| 0 <= j < (b.kind->Union_0).len() && has_overlap_v(a, #[trigger] (b.kind->Union_0)[j])
    } else if a.kind is Param || b.kind is Param {
        true
    } else {
        match (a.kind, b.kind) {
            (TyKindV::Lit(l), TyKindV::Keyword(k)) => lit_of_kwd_v(l, k),
            (TyKindV::Keyword(k), TyKindV::Lit(l)) => lit_of_kwd_v(l, k),
            (TyKindV::Class(x), TyKindV::Class(y)) => class_chain_extends_v(x, y)
                || class_chain_extends_v(y, x),
            _ => extends_v(a, b, false) == Some(true) || extends_v(b, a, false) == Some(true),
        }
    }
}

/// The structural overlap fragment.
#[verifier::loop_isolation(false)]
pub fn has_overlap(a: &Ty, b: &Ty) -> (r: bool)
    ensures r == has_overlap_v(a@, b@),
    decreases a@, b@,
{
    if a.is_kwd(Kwd::Any) || a.is_kwd(Kwd::Unknown) || b.is_kwd(Kwd::Any) || b.is_kwd(Kwd::Unknown) {
        return true;
    }
    if type_eq(a, b) {
        return true;
    }
    match &a.kind {
        TyKind::Union(ts) => {
            proof {
                lemma_tys_view(ts@);
                assert(a@.kind->Union_0 == tys_view(ts@));
            }
            let ghost s = tys_view(ts@);
            let mut i: usize = 0;
            while i < ts.len()
                invariant
                    i <= ts.len(),
                    forall|j: int| 0 <= j < i as int ==> !has_overlap_v(#[trigger] s[j], b@),
                decreases ts@.len() - i as int,
            {
                proof {
                    assert(s[i as int] == ty_view(ts@[i as int]));
                    assert(decreases_to!(a@ => a@.kind));
                    assert(decreases_to!(a@.kind => a@.kind->Union_0));
                    assert(decreases_to!(s => s[i as int]));
                }
                if has_overlap(&ts[i], b) {
                    assert(has_overlap_v(s[i as int], b@));
                    return true;
                }
                i = i + 1;
            }
            return false;
        },
        _ => {},
    }
    match &b.kind {
        TyKind::Union(ts) => {
            proof {
                lemma_tys_view(ts@);
                assert(b@.kind->Union_0 == tys_view(ts@));
            }
            let ghost s = tys_view(ts@);
            let mut i: usize = 0;
            while i < ts.len()
                invariant
                    i <= ts.len(),
                    forall|j: int| 0 <= j < i as int ==> !has_overlap_v(a@, #[trigger] s[j]),
                decreases ts@.len() - i as int,
            {
                proof {
                    assert(s[i as int] == ty_view(ts@[i as int]));
                    assert(decreases_to!(b@ => b@.kind));
                    assert(decreases_to!(b@.kind => b@.kind->Union_0));
                    assert(decreases_to!(s => s[i as int]));
                }
                if has_overlap(a, &ts[i]) {
                    assert(has_overlap_v(a@, s[i as int]));
                    return true;
                }
                i = i + 1;
            }
            return false;
        },
        _ => {},
    }
    if a.is_type_param() || b.is_type_param() {
        return true;
    }
    match (&a.kind, &b.kind) {
        (TyKind::Lit(l), TyKind::Keyword(k)) => {
            match l {
                LitVal::Num(_) => *k == Kwd::Number,
                LitVal::Str(_) => *k == Kwd::Str,
                LitVal::Bool(_) => *k == Kwd::Boolean,
                LitVal::BigInt(_) => *k == Kwd::BigInt,
            }
        },
        (TyKind::Keyword(k), TyKind::Lit(l)) => {
            match l {
                LitVal::Num(_) => *k == Kwd::Number,
                LitVal::Str(_) => *k == Kwd::Str,
                LitVal::Bool(_) => *k == Kwd::Boolean,
                LitVal::BigInt(_) => *k == Kwd::BigInt,
            }
        },
        (TyKind::Class(x), TyKind::Class(y)) => {
            class_chain_extends(x, y) || class_chain_extends(y, x)
        },
        _ => {
            let e1 = extends_of(a, b, false);
            let e2 = extends_of(b, a, false);
            matches!(e1, Some(true)) || matches!(e2, Some(true))
        },
    }
}

/// The assignability fragment: decidedly assignable within this fragment.
/// Unions are taken apart memberwise; what is left is decided by the
/// subtype fragment, so an open answer counts as not assignable here.
pub open spec fn assignable_v(to: TyV, from: TyV) -> bool
    decreases from, to,
{
    if ty_eq(to, from) {
        true
    } else if from.kind == TyKindV::Keyword(Kwd::Never) {
        true
    } else if to.kind == TyKindV::Keyword(Kwd::Any) || to.kind == TyKindV::Keyword(Kwd::Unknown) {
        true
    } else if from.kind == TyKindV::Keyword(Kwd::Any) {
        true
    } else if from.kind matches TyKindV::Union(ts) {
        forall|i: int| 0 <= i < (from.kind->Union_0).len()
            ==> assignable_v(to, #[trigger] (from.kind->Union_0)[i])
    } else if to.kind matches TyKindV::Union(ts) {
        exists|i: int| 0 <= i < (to.kind->Union_0).len()
            && assignable_v(#[trigger] (to.kind->Union_0)[i], from)
    } else {
        extends_v(from, to, false) == Some(true)
    }
}

/// The assignability fragment.
#[verifier::loop_isolation(false)]
pub fn assignable(to: &Ty, from: &Ty) -> (r: bool)
    ensures r == assignable_v(to@, from@),
    decreases from@, to@,
{
    if type_eq(to, from) {
        return true;
    }
    if from.is_kwd(Kwd::Never) {
        return true;
    }
    if to.is_kwd(Kwd::Any) || to.is_kwd(Kwd::Unknown) {
        return true;
    }
    if from.is_kwd(Kwd::Any) {
        return true;
    }
    match &from.kind {
        TyKind::Union(ts) => {
            proof {
                lemma_tys_view(ts@);
                assert(from@.kind->Union_0 == tys_view(ts@));
            }
            let ghost s = tys_view(ts@);
            let mut i: usize = 0;
            while i < ts.len()
                invariant
                    i <= ts.len(),
                    forall|j: int| 0 <= j < i as int ==> assignable_v(to@, #[trigger] s[j]),
                decreases ts@.len() - i as int,
            {
                proof {
                    assert(s[i as int] == ty_view(ts@[i as int]));
                    assert(decreases_to!(from@ => from@.kind));
                    assert(decreases_to!(from@.kind => from@.kind->Union_0));
                    assert(decreases_to!(s => s[i as int]));
                }
                if !assignable(to, &ts[i]) {
                    assert(!assignable_v(to@, s[i as int]));
                    return false;
                }
                i = i + 1;
            }
            return true;
        },
        _ => {},
    }
    match &to.kind {
        TyKind::Union(ts) => {
            proof {
                lemma_tys_view(ts@);
                assert(to@.kind->Union_0 == tys_view(ts@));
            }
            let ghost s = tys_view(ts@);
            let mut i: usize = 0;
            while i < ts.len()
                invariant
                    i <= ts.len(),
                    forall|j: int| 0 <= j < i as int ==> !assignable_v(#[trigger] s[j], from@),
                decreases ts@.len() - i as int,
            {
                proof {
                    assert(s[i as int] == ty_view(ts@[i as int]));
                    assert(decreases_to!(to@ => to@.kind));
                    assert(decreases_to!(to@.kind => to@.kind->Union_0));
                    assert(decreases_to!(s => s[i as int]));
                }
                if assignable(&ts[i], from) {
                    assert(assignable_v(s[i as int], from@));
                    return true;
                }
                i = i + 1;
            }
            return false;
        },
        _ => {},
    }
    let e = extends_of(from, to, false);
    matches!(e, Some(true))
}

/// Whether a value of this type can be coerced to a number on the right of
/// an arithmetic operator: numbers, big-ints, enums and their variants.
pub open spec fn number_castable_v(t: TyV) -> bool {
    ||| t.kind == TyKindV::Keyword(Kwd::Number)
    ||| t.kind matches TyKindV::Lit(LitVal::Num(_))
    ||| t.kind == TyKindV::Keyword(Kwd::BigInt)
    ||| t.kind matches TyKindV::Lit(LitVal::BigInt(_))
    ||| t.kind is Enum
    ||| t.kind is EnumVariant
}

/// Whether a value of this type can be coerced to a number.
pub fn can_be_casted_to_number_in_rhs(t: &Ty) -> (r: bool)
    ensures r == number_castable_v(t@),
{
    match &t.kind {
        TyKind::Keyword(Kwd::Number) => true,
        TyKind::Lit(LitVal::Num(_)) => true,
        TyKind::Keyword(Kwd::BigInt) => true,
        TyKind::Lit(LitVal::BigInt(_)) => true,
        TyKind::Enum(_) => true,
        TyKind::EnumVariant(_, _) => true,
        _ => false,
    }
}

// ------------------------------------------------------------------
// Reference expansion.
// ------------------------------------------------------------------

/// Resolve the tail of a dotted entity name against a base type.
pub open spec fn resolve_chain_v(t: TyV, ids: Seq<Sym>, i: int, span: Span) -> Result<TyV, Diag>
    decreases ids.len() - i,
{
    if i >= ids.len() {
        Ok(t)
    } else {
        match access_property_v(t, ids[i]) {
            Some(p) => resolve_chain_v(p, ids, i + 1, span),
            None => Err(Diag::PropertyNotFound { span }),
        }
    }
}

/// Resolve `typeof E` for a dotted entity name `E`: the first segment is a
/// variable, the rest are property accesses.
pub open spec fn resolve_typeof_v(env: Env, ids: Seq<Sym>, span: Span) -> Result<TyV, Diag> {
    if ids.len() == 0 {
        Err(Diag::UnresolvedReference { span })
    } else {
        match env.spec_type_of_var(ids[0]) {
            Some(t) => resolve_chain_v(t, ids, 1, span),
            None => Err(Diag::NoSuchVar { span, sym: ids[0] }),
        }
    }
}

/// Resolve `typeof E` for a dotted entity name `E`.
#[verifier::loop_isolation(false)]
pub fn resolve_typeof(env: &Env, ids: &Vec<Sym>, span: Span) -> (r: Result<Ty, Diag>)
    ensures
        match r {
            Ok(t) => resolve_typeof_v(*env, ids@, span) == Ok::<TyV, Diag>(t@),
            Err(d) => resolve_typeof_v(*env, ids@, span) == Err::<TyV, Diag>(d),
        },
{
    if ids.len() == 0 {
        return Err(Diag::UnresolvedReference { span });
    }
    let mut t = match env.type_of_var(ids[0], span) {
        Ok(t) => t,
        Err(_) => {
            return Err(Diag::NoSuchVar { span, sym: ids[0] });
        },
    };
    let mut i: usize = 1;
    while i < ids.len()
        invariant
            1 <= i <= ids@.len(),
            resolve_typeof_v(*env, ids@, span) == resolve_chain_v(t@, ids@, i as int, span),
        decreases ids@.len() - i as int,
    {
        match access_property(&t, ids[i]) {
            Some(p) => {
                t = p;
            },
            None => {
                return Err(Diag::PropertyNotFound { span });
            },
        }
        i = i + 1;
    }
    Ok(t)
}

/// Chase the top-level reference or query layers of a type, at most `fuel`
/// of them; a chain longer than `fuel` is returned as it stands.
pub open spec fn chase_ref_v(env: Env, t: TyV, span: Span, fuel: nat) -> Result<TyV, Diag>
    decreases fuel,
{
    match t.kind {
        TyKindV::Ref(n) => if fuel == 0 {
            Ok(t)
        } else {
            match env.spec_type_def(n) {
                Some(d) => chase_ref_v(env, d, span, (fuel - 1) as nat),
                None => Err(Diag::UnresolvedReference { span }),
            }
        },
        TyKindV::Query(q) => if fuel == 0 {
            Ok(t)
        } else {
            match q {
                crate::ty::QueryV::EntityName(ids) => match resolve_typeof_v(env, ids, span) {
                    Ok(d) => chase_ref_v(env, d, span, (fuel - 1) as nat),
                    Err(e) => Err(e),
                },
                crate::ty::QueryV::Import(_) => Err(Diag::Unimplemented { span }),
            }
        },
        _ => Ok(t),
    }
}

/// Chase the top-level reference or query layers of a type.
pub fn chase_ref(env: &Env, t: &Ty, span: Span, fuel: usize) -> (r: Result<Ty, Diag>)
    ensures
        match r {
            Ok(out) => chase_ref_v(*env, t@, span, fuel as nat) == Ok::<TyV, Diag>(out@),
            Err(d) => chase_ref_v(*env, t@, span, fuel as nat) == Err::<TyV, Diag>(d),
        },
    decreases fuel,
{
    match &t.kind {
        TyKind::Ref(n) => {
            if fuel == 0 {
                Ok(t.clone())
            } else {
                match env.type_def(*n, span) {
                    Ok(d) => chase_ref(env, &d, span, fuel - 1),
                    Err(e) => Err(e),
                }
            }
        },
        TyKind::Query(q) => {
            if fuel == 0 {
                Ok(t.clone())
            } else {
                match q {
                    crate::ty::QueryExpr::EntityName(ids) => {
                        proof {
                            assert(t@.kind->Query_0 == crate::ty::QueryV::EntityName(ids@));
                        }
                        match resolve_typeof(env, ids, span) {
                            Ok(d) => chase_ref(env, &d, span, fuel - 1),
                            Err(e) => Err(e),
                        }
                    },
                    crate::ty::QueryExpr::Import(_) => Err(Diag::Unimplemented { span }),
                }
            }
        },
        _ => Ok(t.clone()),
    }
}

/// Chase references in every member of a list.
pub open spec fn chase_each_v(env: Env, s: Seq<TyV>, span: Span, fuel: nat) -> Result<Seq<TyV>, Diag>
    decreases s,
{
    if s.len() == 0 {
        Ok(Seq::empty())
    } else {
        match chase_ref_v(env, s[0], span, fuel) {
            Ok(t) => match chase_each_v(env, s.drop_first(), span, fuel) {
                Ok(rest) => Ok(seq![t] + rest),
                Err(d) => Err(d),
            },
            Err(d) => Err(d),
        }
    }
}

/// Expand references fully at the top: chase the top layer, and where a
/// union emerges, chase each member's top layer too.
pub open spec fn expand_fully_v(env: Env, t: TyV, span: Span, fuel: nat) -> Result<TyV, Diag> {
    match chase_ref_v(env, t, span, fuel) {
        Ok(t2) => match t2.kind {
            TyKindV::Union(ts) => match chase_each_v(env, ts, span, fuel) {
                Ok(ms) => Ok(TyV { no_generalize: t2.no_generalize, kind: TyKindV::Union(ms) }),
                Err(d) => Err(d),
            },
            _ => Ok(t2),
        },
        Err(d) => Err(d),
    }
}

/// Expand references fully at the top of a type.
#[verifier::loop_isolation(false)]
pub fn expand_fully(env: &Env, t: &Ty, span: Span, fuel: usize) -> (r: Result<Ty, Diag>)
    ensures
        match r {
            Ok(out) => expand_fully_v(*env, t@, span, fuel as nat) == Ok::<TyV, Diag>(out@),
            Err(d) => expand_fully_v(*env, t@, span, fuel as nat) == Err::<TyV, Diag>(d),
        },
{
    let t2 = match chase_ref(env, t, span, fuel) {
        Ok(t2) => t2,
        Err(d) => {
            return Err(d);
        },
    };
    match t2.kind {
        TyKind::Union(ts) => {
            proof {
                lemma_tys_view(ts@);
            }
            let ghost s = tys_view(ts@);
            let mut out: Vec<Ty> = Vec::new();
            let mut i: usize = 0;
            proof {
                assert(s.skip(0) =~= s);
            }
            while i < ts.len()
                invariant
                    i <= ts.len(),
                    out@.len() == i as int,
                    chase_each_v(*env, s, span, fuel as nat)
                        == match chase_each_v(*env, s.skip(i as int), span, fuel as nat) {
                            Ok(rest) => Ok::<Seq<TyV>, Diag>(tys_view(out@) + rest),
                            Err(d) => Err::<Seq<TyV>, Diag>(d),
                        },
                decreases ts@.len() - i as int,
            {
                proof {
                    lemma_tys_view(ts@);
                    lemma_tys_view(out@);
                    assert(s.skip(i as int)[0] == s[i as int]);
                    assert(s.skip(i as int).drop_first() =~= s.skip(i as int + 1));
                    assert(s[i as int] == ty_view(ts@[i as int]));
                }
                let ghost prev = out@;
                match chase_ref(env, &ts[i], span, fuel) {
                    Ok(m) => {
                        out.push(m);
                        proof {
                            lemma_tys_view(prev);
                            lemma_tys_view(out@);
                            assert(out@ =~= prev.push(out@[out@.len() - 1]));
                            assert(tys_view(out@) =~= tys_view(prev).push(out@[out@.len() - 1]@));
                            assert forall|rest: Seq<TyV>| true implies tys_view(prev)
                                + (seq![out@[out@.len() - 1]@] + rest) =~= tys_view(out@) + rest by {}
                        }
                    },
                    Err(d) => {
                        return Err(d);
                    },
                }
                i = i + 1;
            }
            proof {
                assert(s.skip(ts@.len() as int) =~= Seq::<TyV>::empty());
                assert(chase_each_v(*env, s.skip(ts@.len() as int), span, fuel as nat)
                    == Ok::<Seq<TyV>, Diag>(Seq::<TyV>::empty()));
                assert(tys_view(out@) + Seq::<TyV>::empty() =~= tys_view(out@));
            }
            Ok(Ty { no_generalize: t2.no_generalize, kind: TyKind::Union(out) })
        },
        _ => Ok(t2),
    }
}

} // verus!
