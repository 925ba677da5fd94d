//! Structural equality (`type_eq`) and deep copy for the type algebra.
//!
//! `type_eq` is the equality the whole checker uses: it compares structure
//! and ignores the `no_generalize` mark, the one piece of a type that is not
//! structure.

use vstd::prelude::*;
use crate::ty::ClassDef;
use crate::ty::ClassV;
use crate::ty::ElemV;
use crate::ty::InterfaceDef;
use crate::ty::InterfaceV;
use crate::ty::QueryExpr;
use crate::ty::QueryV;
use crate::ty::Ty;
use crate::ty::TyKind;
use crate::ty::TyKindV;
use crate::ty::TyV;
use crate::ty::TypeElement;
use crate::ty::Sym;
use crate::ty::class_view;
use crate::ty::elem_view;
use crate::ty::elems_view;
use crate::ty::iface_view;
use crate::ty::lemma_elems_view;
use crate::ty::lemma_tys_view;
use crate::ty::query_view;
use crate::ty::ty_view;
use crate::ty::tys_view;

verus! {

/// Structural equality of two types, ignoring the `no_generalize` mark.
pub open spec fn ty_eq(a: TyV, b: TyV) -> bool
    decreases a,
{
    kind_eq(a.kind, b.kind)
}

/// Structural equality of two structural cases.
pub open spec fn kind_eq(a: TyKindV, b: TyKindV) -> bool
    decreases a,
{
    match (a, b) {
        (TyKindV::Keyword(x), TyKindV::Keyword(y)) => x == y,
        (TyKindV::Lit(x), TyKindV::Lit(y)) => x == y,
        (TyKindV::Ref(x), TyKindV::Ref(y)) => x == y,
        (TyKindV::Query(x), TyKindV::Query(y)) => query_eq(x, y),
        (TyKindV::Union(xs), TyKindV::Union(ys)) => tys_eq(xs, ys),
        (TyKindV::Intersection(xs), TyKindV::Intersection(ys)) => tys_eq(xs, ys),
        (TyKindV::Class(x), TyKindV::Class(y)) => class_eq(x, y),
        (TyKindV::ClassDef(x), TyKindV::ClassDef(y)) => class_eq(x, y),
        (TyKindV::Interface(x), TyKindV::Interface(y)) => iface_eq(x, y),
        (TyKindV::TypeLit(xs), TyKindV::TypeLit(ys)) => elems_eq(xs, ys),
        (TyKindV::Tuple(xs), TyKindV::Tuple(ys)) => tys_eq(xs, ys),
        (TyKindV::Array(x), TyKindV::Array(y)) => ty_eq(*x, *y),
        (TyKindV::Mapped, TyKindV::Mapped) => true,
        (TyKindV::IndexedAccess, TyKindV::IndexedAccess) => true,
        (TyKindV::Param(x), TyKindV::Param(y)) => x == y,
        (TyKindV::Enum(x), TyKindV::Enum(y)) => x == y,
        (TyKindV::EnumVariant(xe, xv), TyKindV::EnumVariant(ye, yv)) => xe == ye && xv == yv,
        (TyKindV::Keyof(x), TyKindV::Keyof(y)) => ty_eq(*x, *y),
        (TyKindV::This, TyKindV::This) => true,
        (TyKindV::UniqueSymbol, TyKindV::UniqueSymbol) => true,
        _ => false,
    }
}

/// Pointwise structural equality of two type sequences.
pub open spec fn tys_eq(a: Seq<TyV>, b: Seq<TyV>) -> bool
    decreases a,
{
    a.len() == b.len() && (forall|i: int| 0 <= i < a.len() ==> ty_eq(#[trigger] a[i], b[i]))
}

/// Structural equality of query expressions.
pub open spec fn query_eq(a: QueryV, b: QueryV) -> bool {
    match (a, b) {
        (QueryV::EntityName(x), QueryV::EntityName(y)) => x == y,
        (QueryV::Import(x), QueryV::Import(y)) => x == y,
        _ => false,
    }
}

/// Structural equality of class definitions.
pub open spec fn class_eq(a: ClassV, b: ClassV) -> bool
    decreases a,
{
    &&& a.name == b.name
    &&& match (a.super_class, b.super_class) {
        (Some(x), Some(y)) => ty_eq(*x, *y),
        (None, None) => true,
        _ => false,
    }
    &&& elems_eq(a.body, b.body)
}

/// Structural equality of interface definitions.
pub open spec fn iface_eq(a: InterfaceV, b: InterfaceV) -> bool
    decreases a,
{
    a.name == b.name && tys_eq(a.extends, b.extends) && elems_eq(a.body, b.body)
}

/// Pointwise structural equality of two member sequences.
pub open spec fn elems_eq(a: Seq<ElemV>, b: Seq<ElemV>) -> bool
    decreases a,
{
    a.len() == b.len() && (forall|i: int| 0 <= i < a.len() ==> elem_eq(#[trigger] a[i], b[i]))
}

/// Structural equality of two members.
pub open spec fn elem_eq(a: ElemV, b: ElemV) -> bool
    decreases a,
{
    match (a, b) {
        (ElemV::Property(xk, xt), ElemV::Property(yk, yt)) => xk == yk && ty_eq(xt, yt),
        (ElemV::Index(xp, xa), ElemV::Index(yp, ya)) => ty_eq(xp, yp) && opt_ty_eq(xa, ya),
        (ElemV::Method(xk, xn, xp, xr), ElemV::Method(yk, yn, yp, yr)) => {
            xk == yk && xn == yn && tys_eq(xp, yp) && opt_ty_eq(xr, yr)
        },
        (ElemV::Call, ElemV::Call) => true,
        (ElemV::Constructor, ElemV::Constructor) => true,
        _ => false,
    }
}

/// Structural equality of optional types.
pub open spec fn opt_ty_eq(a: Option<Box<TyV>>, b: Option<Box<TyV>>) -> bool
    decreases a,
{
    match (a, b) {
        (Some(x), Some(y)) => ty_eq(*x, *y),
        (None, None) => true,
        _ => false,
    }
}

// ------------------------------------------------------------------
// Reflexivity: `type_eq(t, t)` always holds.
// ------------------------------------------------------------------

/// `ty_eq` is reflexive.
pub proof fn lemma_ty_eq_refl(a: TyV)
    ensures ty_eq(a, a),
    decreases a,
{
    lemma_kind_eq_refl(a.kind);
}

proof fn lemma_kind_eq_refl(a: TyKindV)
    ensures kind_eq(a, a),
    decreases a,
{
    match a {
        TyKindV::Union(xs) => lemma_tys_eq_refl(xs),
        TyKindV::Intersection(xs) => lemma_tys_eq_refl(xs),
        TyKindV::Tuple(xs) => lemma_tys_eq_refl(xs),
        TyKindV::Class(d) => lemma_class_eq_refl(d),
        TyKindV::ClassDef(d) => lemma_class_eq_refl(d),
        TyKindV::Interface(d) => lemma_iface_eq_refl(d),
        TyKindV::TypeLit(es) => lemma_elems_eq_refl(es),
        TyKindV::Array(t) => lemma_ty_eq_refl(*t),
        TyKindV::Keyof(t) => lemma_ty_eq_refl(*t),
        _ => {},
    }
}

/// `tys_eq` is reflexive.
pub proof fn lemma_tys_eq_refl(a: Seq<TyV>)
    ensures tys_eq(a, a),
    decreases a,
{
    assert forall|i: int| 0 <= i < a.len() implies ty_eq(#[trigger] a[i], a[i]) by {
        lemma_ty_eq_refl(a[i]);
    }
}

proof fn lemma_class_eq_refl(a: ClassV)
    ensures class_eq(a, a),
    decreases a,
{
    match a.super_class {
        Some(t) => lemma_ty_eq_refl(*t),
        None => {},
    }
    lemma_elems_eq_refl(a.body);
}

proof fn lemma_iface_eq_refl(a: InterfaceV)
    ensures iface_eq(a, a),
    decreases a,
{
    lemma_tys_eq_refl(a.extends);
    lemma_elems_eq_refl(a.body);
}

proof fn lemma_elems_eq_refl(a: Seq<ElemV>)
    ensures elems_eq(a, a),
    decreases a,
{
    assert forall|i: int| 0 <= i < a.len() implies elem_eq(#[trigger] a[i], a[i]) by {
        lemma_elem_eq_refl(a[i]);
    }
}

proof fn lemma_elem_eq_refl(a: ElemV)
    ensures elem_eq(a, a),
    decreases a,
{
    match a {
        ElemV::Property(_, t) => lemma_ty_eq_refl(t),
        ElemV::Index(p, an) => {
            lemma_ty_eq_refl(p);
            match an {
                Some(t) => lemma_ty_eq_refl(*t),
                None => {},
            }
        },
        ElemV::Method(_, _, ps, r) => {
            lemma_tys_eq_refl(ps);
            match r {
                Some(t) => lemma_ty_eq_refl(*t),
                None => {},
            }
        },
        _ => {},
    }
}


// ------------------------------------------------------------------
// Transitivity.
// ------------------------------------------------------------------

/// `ty_eq` is transitive.
pub proof fn lemma_ty_eq_trans(a: TyV, b: TyV, c: TyV)
    requires ty_eq(a, b), ty_eq(b, c),
    ensures ty_eq(a, c),
    decreases a,
{
    lemma_kind_eq_trans(a.kind, b.kind, c.kind);
}

proof fn lemma_kind_eq_trans(a: TyKindV, b: TyKindV, c: TyKindV)
    requires kind_eq(a, b), kind_eq(b, c),
    ensures kind_eq(a, c),
    decreases a,
{
    match (a, b, c) {
        (TyKindV::Union(xs), TyKindV::Union(ys), TyKindV::Union(zs)) => {
            lemma_tys_eq_trans(xs, ys, zs);
        },
        (TyKindV::Intersection(xs), TyKindV::Intersection(ys), TyKindV::Intersection(zs)) => {
            lemma_tys_eq_trans(xs, ys, zs);
        },
        (TyKindV::Tuple(xs), TyKindV::Tuple(ys), TyKindV::Tuple(zs)) => {
            lemma_tys_eq_trans(xs, ys, zs);
        },
        (TyKindV::Class(x), TyKindV::Class(y), TyKindV::Class(z)) => {
            lemma_class_eq_trans(x, y, z);
        },
        (TyKindV::ClassDef(x), TyKindV::ClassDef(y), TyKindV::ClassDef(z)) => {
            lemma_class_eq_trans(x, y, z);
        },
        (TyKindV::Interface(x), TyKindV::Interface(y), TyKindV::Interface(z)) => {
            lemma_iface_eq_trans(x, y, z);
        },
        (TyKindV::TypeLit(xs), TyKindV::TypeLit(ys), TyKindV::TypeLit(zs)) => {
            lemma_elems_eq_trans(xs, ys, zs);
        },
        (TyKindV::Array(x), TyKindV::Array(y), TyKindV::Array(z)) => {
            lemma_ty_eq_trans(*x, *y, *z);
        },
        (TyKindV::Keyof(x), TyKindV::Keyof(y), TyKindV::Keyof(z)) => {
            lemma_ty_eq_trans(*x, *y, *z);
        },
        _ => {},
    }
}

/// `tys_eq` is transitive.
pub proof fn lemma_tys_eq_trans(a: Seq<TyV>, b: Seq<TyV>, c: Seq<TyV>)
    requires tys_eq(a, b), tys_eq(b, c),
    ensures tys_eq(a, c),
    decreases a,
{
    assert forall|i: int| 0 <= i < a.len() implies ty_eq(#[trigger] a[i], c[i]) by {
        assert(ty_eq(a[i], b[i]));
        assert(ty_eq(b[i], c[i]));
        lemma_ty_eq_trans(a[i], b[i], c[i]);
    }
}

proof fn lemma_class_eq_trans(a: ClassV, b: ClassV, c: ClassV)
    requires class_eq(a, b), class_eq(b, c),
    ensures class_eq(a, c),
    decreases a,
{
    match (a.super_class, b.super_class, c.super_class) {
        (Some(x), Some(y), Some(z)) => lemma_ty_eq_trans(*x, *y, *z),
        _ => {},
    }
    lemma_elems_eq_trans(a.body, b.body, c.body);
}

proof fn lemma_iface_eq_trans(a: InterfaceV, b: InterfaceV, c: InterfaceV)
    requires iface_eq(a, b), iface_eq(b, c),
    ensures iface_eq(a, c),
    decreases a,
{
    lemma_tys_eq_trans(a.extends, b.extends, c.extends);
    lemma_elems_eq_trans(a.body, b.body, c.body);
}

proof fn lemma_elems_eq_trans(a: Seq<ElemV>, b: Seq<ElemV>, c: Seq<ElemV>)
    requires elems_eq(a, b), elems_eq(b, c),
    ensures elems_eq(a, c),
    decreases a,
{
    assert forall|i: int| 0 <= i < a.len() implies elem_eq(#[trigger] a[i], c[i]) by {
        assert(elem_eq(a[i], b[i]));
        assert(elem_eq(b[i], c[i]));
        lemma_elem_eq_trans(a[i], b[i], c[i]);
    }
}

proof fn lemma_elem_eq_trans(a: ElemV, b: ElemV, c: ElemV)
    requires elem_eq(a, b), elem_eq(b, c),
    ensures elem_eq(a, c),
    decreases a,
{
    match (a, b, c) {
        (ElemV::Property(_, xt), ElemV::Property(_, yt), ElemV::Property(_, zt)) => {
            lemma_ty_eq_trans(xt, yt, zt);
        },
        (ElemV::Index(xp, xa), ElemV::Index(yp, ya), ElemV::Index(zp, za)) => {
            lemma_ty_eq_trans(xp, yp, zp);
            match (xa, ya, za) {
                (Some(x), Some(y), Some(z)) => lemma_ty_eq_trans(*x, *y, *z),
                _ => {},
            }
        },
        (ElemV::Method(_, _, xp, xr), ElemV::Method(_, _, yp, yr), ElemV::Method(_, _, zp, zr)) => {
            lemma_tys_eq_trans(xp, yp, zp);
            match (xr, yr, zr) {
                (Some(x), Some(y), Some(z)) => lemma_ty_eq_trans(*x, *y, *z),
                _ => {},
            }
        },
        _ => {},
    }
}

// ------------------------------------------------------------------
// Executable structural equality.
// ------------------------------------------------------------------

/// Decide structural equality of two types.
pub fn type_eq(a: &Ty, b: &Ty) -> (r: bool)
    ensures r == ty_eq(a@, b@),
    decreases a@,
{
    proof {
        assert(decreases_to!(a@ => a@.kind));
    }
    match (&a.kind, &b.kind) {
        (TyKind::Keyword(x), TyKind::Keyword(y)) => *x == *y,
        (TyKind::Lit(x), TyKind::Lit(y)) => *x == *y,
        (TyKind::Ref(x), TyKind::Ref(y)) => *x == *y,
        (TyKind::Query(x), TyKind::Query(y)) => query_eq_exec(x, y),
        (TyKind::Union(xs), TyKind::Union(ys)) => {
            proof {
                assert(a@.kind->Union_0 == tys_view(xs@));
                assert(decreases_to!(a@.kind => a@.kind->Union_0));
            }
            eq_tys(xs, ys)
        },
        (TyKind::Intersection(xs), TyKind::Intersection(ys)) => {
            proof {
                assert(a@.kind->Intersection_0 == tys_view(xs@));
                assert(decreases_to!(a@.kind => a@.kind->Intersection_0));
            }
            eq_tys(xs, ys)
        },
        (TyKind::Class(x), TyKind::Class(y)) => {
            proof {
                assert(a@.kind->Class_0 == class_view(**x));
                assert(decreases_to!(a@.kind => a@.kind->Class_0));
            }
            eq_class(x, y)
        },
        (TyKind::ClassDef(x), TyKind::ClassDef(y)) => {
            proof {
                assert(a@.kind->ClassDef_0 == class_view(**x));
                assert(decreases_to!(a@.kind => a@.kind->ClassDef_0));
            }
            eq_class(x, y)
        },
        (TyKind::Interface(x), TyKind::Interface(y)) => {
            proof {
                assert(a@.kind->Interface_0 == iface_view(**x));
                assert(decreases_to!(a@.kind => a@.kind->Interface_0));
            }
            eq_iface(x, y)
        },
        (TyKind::TypeLit(xs), TyKind::TypeLit(ys)) => {
            proof {
                assert(a@.kind->TypeLit_0 == elems_view(xs@));
                assert(decreases_to!(a@.kind => a@.kind->TypeLit_0));
            }
            eq_elems(xs, ys)
        },
        (TyKind::Tuple(xs), TyKind::Tuple(ys)) => {
            proof {
                assert(a@.kind->Tuple_0 == tys_view(xs@));
                assert(decreases_to!(a@.kind => a@.kind->Tuple_0));
            }
            eq_tys(xs, ys)
        },
        (TyKind::Array(x), TyKind::Array(y)) => {
            proof {
                assert(*a@.kind->Array_0 == ty_view(**x));
                assert(decreases_to!(a@.kind => a@.kind->Array_0));
            }
            type_eq(x, y)
        },
        (TyKind::Mapped, TyKind::Mapped) => true,
        (TyKind::IndexedAccess, TyKind::IndexedAccess) => true,
        (TyKind::Param(x), TyKind::Param(y)) => *x == *y,
        (TyKind::Enum(x), TyKind::Enum(y)) => *x == *y,
        (TyKind::EnumVariant(xe, xv), TyKind::EnumVariant(ye, yv)) => *xe == *ye && *xv == *yv,
        (TyKind::Keyof(x), TyKind::Keyof(y)) => {
            proof {
                assert(*a@.kind->Keyof_0 == ty_view(**x));
                assert(decreases_to!(a@.kind => a@.kind->Keyof_0));
            }
            type_eq(x, y)
        },
        (TyKind::This, TyKind::This) => true,
        (TyKind::UniqueSymbol, TyKind::UniqueSymbol) => true,
        _ => false,
    }
}

/// Decide pointwise structural equality of two type lists.
fn eq_tys(x: &Vec<Ty>, y: &Vec<Ty>) -> (r: bool)
    ensures r == tys_eq(tys_view(x@), tys_view(y@)),
    decreases tys_view(x@),
{
    proof {
        lemma_tys_view(x@);
        lemma_tys_view(y@);
    }
    if x.len() != y.len() {
        return false;
    }
    let mut i: usize = 0;
    while i < x.len()
        invariant
            i <= x.len(),
            x@.len() == y@.len(),
            tys_view(x@).len() == x@.len(),
            tys_view(y@).len() == y@.len(),
            forall|j: int| 0 <= j < x@.len() ==> tys_view(x@)[j] == ty_view(x@[j]),
            forall|j: int| 0 <= j < y@.len() ==> tys_view(y@)[j] == ty_view(y@[j]),
            forall|j: int| 0 <= j < i as int ==> ty_eq(#[trigger] tys_view(x@)[j], tys_view(y@)[j]),
        decreases x@.len() - i as int,
    {
        proof {
            let s = tys_view(x@);
            assert(decreases_to!(s => s[i as int]));
        }
        if !type_eq(&x[i], &y[i]) {
            return false;
        }
        i = i + 1;
    }
    true
}

/// Decide pointwise structural equality of two member lists.
fn eq_elems(x: &Vec<TypeElement>, y: &Vec<TypeElement>) -> (r: bool)
    ensures r == elems_eq(elems_view(x@), elems_view(y@)),
    decreases elems_view(x@),
{
    proof {
        lemma_elems_view(x@);
        lemma_elems_view(y@);
    }
    if x.len() != y.len() {
        return false;
    }
    let mut i: usize = 0;
    while i < x.len()
        invariant
            i <= x.len(),
            x@.len() == y@.len(),
            elems_view(x@).len() == x@.len(),
            elems_view(y@).len() == y@.len(),
            forall|j: int| 0 <= j < x@.len() ==> elems_view(x@)[j] == elem_view(x@[j]),
            forall|j: int| 0 <= j < y@.len() ==> elems_view(y@)[j] == elem_view(y@[j]),
            forall|j: int| 0 <= j < i as int ==> elem_eq(#[trigger] elems_view(x@)[j], elems_view(y@)[j]),
        decreases x@.len() - i as int,
    {
        proof {
            let s = elems_view(x@);
            assert(decreases_to!(s => s[i as int]));
        }
        if !eq_elem(&x[i], &y[i]) {
            return false;
        }
        i = i + 1;
    }
    true
}

/// Decide structural equality of two members.
fn eq_elem(x: &TypeElement, y: &TypeElement) -> (r: bool)
    ensures r == elem_eq(x@, y@),
    decreases x@,
{
    match (x, y) {
        (TypeElement::Property(xk, xt), TypeElement::Property(yk, yt)) => {
            proof {
                assert(x@->Property_1 == ty_view(*xt));
                assert(decreases_to!(x@ => x@->Property_1));
            }
            *xk == *yk && type_eq(xt, yt)
        },
        (TypeElement::Index(xp, xa), TypeElement::Index(yp, ya)) => {
            proof {
                assert(x@->Index_0 == ty_view(*xp));
                assert(decreases_to!(x@ => x@->Index_0));
            }
            if !type_eq(xp, yp) {
                return false;
            }
            match (xa, ya) {
                (Some(xt), Some(yt)) => {
                    proof {
                        assert(x@->Index_1 == Some(Box::new(ty_view(*xt))));
                        assert(decreases_to!(x@ => x@->Index_1));
                        assert(decreases_to!(x@->Index_1 => x@->Index_1->0));
                    }
                    type_eq(xt, yt)
                },
                (None, None) => true,
                _ => false,
            }
        },
        (TypeElement::Method(xk, xn, xp, xr), TypeElement::Method(yk, yn, yp, yr)) => {
            if *xk != *yk || *xn != *yn {
                return false;
            }
            proof {
                assert(x@->Method_2 == tys_view(xp@));
                assert(decreases_to!(x@ => x@->Method_2));
            }
            if !eq_tys(xp, yp) {
                return false;
            }
            match (xr, yr) {
                (Some(xt), Some(yt)) => {
                    proof {
                        assert(x@->Method_3 == Some(Box::new(ty_view(*xt))));
                        assert(decreases_to!(x@ => x@->Method_3));
                        assert(decreases_to!(x@->Method_3 => x@->Method_3->0));
                    }
                    type_eq(xt, yt)
                },
                (None, None) => true,
                _ => false,
            }
        },
        (TypeElement::Call, TypeElement::Call) => true,
        (TypeElement::Constructor, TypeElement::Constructor) => true,
        _ => false,
    }
}

/// Decide structural equality of two class definitions.
fn eq_class(x: &ClassDef, y: &ClassDef) -> (r: bool)
    ensures r == class_eq(class_view(*x), class_view(*y)),
    decreases class_view(*x),
{
    let names_ok = match (&x.name, &y.name) {
        (Some(a), Some(b)) => *a == *b,
        (None, None) => true,
        _ => false,
    };
    if !names_ok {
        return false;
    }
    let supers_ok = match (&x.super_class, &y.super_class) {
        (Some(a), Some(b)) => {
            proof {
                let cv = class_view(*x);
                assert(cv.super_class == Some(Box::new(ty_view(**a))));
                assert(decreases_to!(cv => cv.super_class));
                assert(decreases_to!(cv.super_class => cv.super_class->0));
            }
            type_eq(a, b)
        },
        (None, None) => true,
        _ => false,
    };
    if !supers_ok {
        return false;
    }
    proof {
        let cv = class_view(*x);
        assert(cv.body == elems_view(x.body@));
        assert(decreases_to!(cv => cv.body));
    }
    eq_elems(&x.body, &y.body)
}

/// Decide structural equality of two interface definitions.
fn eq_iface(x: &InterfaceDef, y: &InterfaceDef) -> (r: bool)
    ensures r == iface_eq(iface_view(*x), iface_view(*y)),
    decreases iface_view(*x),
{
    if x.name != y.name {
        return false;
    }
    proof {
        let iv = iface_view(*x);
        assert(iv.extends == tys_view(x.extends@));
        assert(decreases_to!(iv => iv.extends));
        assert(iv.body == elems_view(x.body@));
        assert(decreases_to!(iv => iv.body));
    }
    if !eq_tys(&x.extends, &y.extends) {
        return false;
    }
    eq_elems(&x.body, &y.body)
}

/// Decide structural equality of two query expressions.
#[verifier::loop_isolation(false)]
fn query_eq_exec(x: &QueryExpr, y: &QueryExpr) -> (r: bool)
    ensures r == query_eq(query_view(*x), query_view(*y)),
{
    match (x, y) {
        (QueryExpr::EntityName(a), QueryExpr::EntityName(b)) => {
            if a.len() != b.len() {
                assert(a@ != b@);
                return false;
            }
            let mut i: usize = 0;
            while i < a.len()
                invariant
                    i <= a.len(),
                    a@.len() == b@.len(),
                    forall|j: int| 0 <= j < i as int ==> a@[j] == b@[j],
                decreases a@.len() - i as int,
            {
                if a[i] != b[i] {
                    assert(a@ != b@);
                    return false;
                }
                i = i + 1;
            }
            proof {
                assert(a@ =~= b@);
            }
            true
        },
        (QueryExpr::Import(a), QueryExpr::Import(b)) => *a == *b,
        _ => false,
    }
}


// ------------------------------------------------------------------
// Deep copy.
// ------------------------------------------------------------------

/// Copy a list of types.
#[verifier::loop_isolation(false)]
pub fn clone_tys(xs: &Vec<Ty>) -> (r: Vec<Ty>)
    ensures tys_view(r@) == tys_view(xs@),
    decreases tys_view(xs@),
{
    proof {
        lemma_tys_view(xs@);
    }
    let mut out: Vec<Ty> = Vec::new();
    let mut i: usize = 0;
    while i < xs.len()
        invariant
            i <= xs.len(),
            out@.len() == i as int,
            forall|j: int| 0 <= j < i as int ==> out@[j]@ == xs@[j]@,
        decreases xs@.len() - i as int,
    {
        proof {
            let s = tys_view(xs@);
            assert(decreases_to!(s => s[i as int]));
        }
        let y = xs[i].clone();
        out.push(y);
        i = i + 1;
    }
    proof {
        lemma_tys_view(out@);
        assert(tys_view(out@) =~= tys_view(xs@));
    }
    out
}

/// Copy a list of members.
#[verifier::loop_isolation(false)]
pub fn clone_elems(xs: &Vec<TypeElement>) -> (r: Vec<TypeElement>)
    ensures elems_view(r@) == elems_view(xs@),
    decreases elems_view(xs@),
{
    proof {
        lemma_elems_view(xs@);
    }
    let mut out: Vec<TypeElement> = Vec::new();
    let mut i: usize = 0;
    while i < xs.len()
        invariant
            i <= xs.len(),
            out@.len() == i as int,
            forall|j: int| 0 <= j < i as int ==> out@[j]@ == xs@[j]@,
        decreases xs@.len() - i as int,
    {
        proof {
            let s = elems_view(xs@);
            assert(decreases_to!(s => s[i as int]));
        }
        let y = xs[i].clone();
        out.push(y);
        i = i + 1;
    }
    proof {
        lemma_elems_view(out@);
        assert(elems_view(out@) =~= elems_view(xs@));
    }
    out
}

impl Clone for ClassDef {
    /// Copy a class definition.
    fn clone(&self) -> (r: Self)
        ensures class_view(r) == class_view(*self),
        decreases class_view(*self),
    {
        let name = match &self.name {
            Some(n) => Some(*n),
            None => None,
        };
        let super_class = match &self.super_class {
            Some(t) => {
                proof {
                    let cv = class_view(*self);
                    assert(cv.super_class == Some(Box::new(ty_view(**t))));
                    assert(decreases_to!(cv => cv.super_class));
                    assert(decreases_to!(cv.super_class => cv.super_class->0));
                }
                Some(Box::new((**t).clone()))
            },
            None => None,
        };
        proof {
            let cv = class_view(*self);
            assert(cv.body == elems_view(self.body@));
            assert(decreases_to!(cv => cv.body));
        }
        let body = clone_elems(&self.body);
        ClassDef { name, super_class, body }
    }
}

impl Clone for InterfaceDef {
    /// Copy an interface definition.
    fn clone(&self) -> (r: Self)
        ensures iface_view(r) == iface_view(*self),
        decreases iface_view(*self),
    {
        proof {
            let iv = iface_view(*self);
            assert(iv.extends == tys_view(self.extends@));
            assert(decreases_to!(iv => iv.extends));
            assert(iv.body == elems_view(self.body@));
            assert(decreases_to!(iv => iv.body));
        }
        let extends = clone_tys(&self.extends);
        let body = clone_elems(&self.body);
        InterfaceDef { name: self.name, extends, body }
    }
}

impl Clone for QueryExpr {
    /// Copy a query expression.
    #[verifier::loop_isolation(false)]
    fn clone(&self) -> (r: Self)
        ensures query_view(r) == query_view(*self),
    {
        match self {
            QueryExpr::EntityName(ids) => {
                let mut out: Vec<Sym> = Vec::new();
                let mut i: usize = 0;
                while i < ids.len()
                    invariant
                        i <= ids.len(),
                        out@.len() == i as int,
                        forall|j: int| 0 <= j < i as int ==> out@[j] == ids@[j],
                    decreases ids@.len() - i as int,
                {
                    out.push(ids[i]);
                    i = i + 1;
                }
                proof {
                    assert(out@ =~= ids@);
                }
                QueryExpr::EntityName(out)
            },
            QueryExpr::Import(s) => QueryExpr::Import(*s),
        }
    }
}

impl Clone for TypeElement {
    /// Copy a member.
    fn clone(&self) -> (r: Self)
        ensures r@ == self@,
        decreases self@,
    {
        match self {
            TypeElement::Property(k, t) => {
                proof {
                    assert(self@->Property_1 == ty_view(*t));
                    assert(decreases_to!(self@ => self@->Property_1));
                }
                TypeElement::Property(*k, t.clone())
            },
            TypeElement::Index(p, a) => {
                proof {
                    assert(self@->Index_0 == ty_view(*p));
                    assert(decreases_to!(self@ => self@->Index_0));
                }
                let pc = p.clone();
                let ac = match a {
                    Some(t) => {
                        proof {
                            assert(self@->Index_1 == Some(Box::new(ty_view(*t))));
                            assert(decreases_to!(self@ => self@->Index_1));
                            assert(decreases_to!(self@->Index_1 => self@->Index_1->0));
                        }
                        Some(t.clone())
                    },
                    None => None,
                };
                TypeElement::Index(pc, ac)
            },
            TypeElement::Method(k, n, ps, ret) => {
                proof {
                    assert(self@->Method_2 == tys_view(ps@));
                    assert(decreases_to!(self@ => self@->Method_2));
                }
                let psc = clone_tys(ps);
                let rc = match ret {
                    Some(t) => {
                        proof {
                            assert(self@->Method_3 == Some(Box::new(ty_view(*t))));
                            assert(decreases_to!(self@ => self@->Method_3));
                            assert(decreases_to!(self@->Method_3 => self@->Method_3->0));
                        }
                        Some(t.clone())
                    },
                    None => None,
                };
                TypeElement::Method(*k, *n, psc, rc)
            },
            TypeElement::Call => TypeElement::Call,
            TypeElement::Constructor => TypeElement::Constructor,
        }
    }
}

impl Clone for Ty {
    /// Copy a type, mark included.
    fn clone(&self) -> (r: Self)
        ensures r@ == self@,
        decreases self@,
    {
        proof {
            assert(decreases_to!(self@ => self@.kind));
        }
        let kind = match &self.kind {
            TyKind::Keyword(x) => TyKind::Keyword(*x),
            TyKind::Lit(x) => TyKind::Lit(*x),
            TyKind::Ref(n) => TyKind::Ref(*n),
            TyKind::Query(q) => TyKind::Query(q.clone()),
            TyKind::Union(ts) => {
                proof {
                    assert(self@.kind->Union_0 == tys_view(ts@));
                    assert(decreases_to!(self@.kind => self@.kind->Union_0));
                }
                TyKind::Union(clone_tys(ts))
            },
            TyKind::Intersection(ts) => {
                proof {
                    assert(self@.kind->Intersection_0 == tys_view(ts@));
                    assert(decreases_to!(self@.kind => self@.kind->Intersection_0));
                }
                TyKind::Intersection(clone_tys(ts))
            },
            TyKind::Class(d) => {
                proof {
                    assert(self@.kind->Class_0 == class_view(**d));
                    assert(decreases_to!(self@.kind => self@.kind->Class_0));
                }
                TyKind::Class(Box::new((**d).clone()))
            },
            TyKind::ClassDef(d) => {
                proof {
                    assert(self@.kind->ClassDef_0 == class_view(**d));
                    assert(decreases_to!(self@.kind => self@.kind->ClassDef_0));
                }
                TyKind::ClassDef(Box::new((**d).clone()))
            },
            TyKind::Interface(d) => {
                proof {
                    assert(self@.kind->Interface_0 == iface_view(**d));
                    assert(decreases_to!(self@.kind => self@.kind->Interface_0));
                }
                TyKind::Interface(Box::new((**d).clone()))
            },
            TyKind::TypeLit(es) => {
                proof {
                    assert(self@.kind->TypeLit_0 == elems_view(es@));
                    assert(decreases_to!(self@.kind => self@.kind->TypeLit_0));
                }
                TyKind::TypeLit(clone_elems(es))
            },
            TyKind::Tuple(ts) => {
                proof {
                    assert(self@.kind->Tuple_0 == tys_view(ts@));
                    assert(decreases_to!(self@.kind => self@.kind->Tuple_0));
                }
                TyKind::Tuple(clone_tys(ts))
            },
            TyKind::Array(t) => {
                proof {
                    assert(*self@.kind->Array_0 == ty_view(**t));
                    assert(decreases_to!(self@.kind => self@.kind->Array_0));
                }
                TyKind::Array(Box::new((**t).clone()))
            },
            TyKind::Mapped => TyKind::Mapped,
            TyKind::IndexedAccess => TyKind::IndexedAccess,
            TyKind::Param(n) => TyKind::Param(*n),
            TyKind::Enum(n) => TyKind::Enum(*n),
            TyKind::EnumVariant(e, v) => TyKind::EnumVariant(*e, *v),
            TyKind::Keyof(t) => {
                proof {
                    assert(*self@.kind->Keyof_0 == ty_view(**t));
                    assert(decreases_to!(self@.kind => self@.kind->Keyof_0));
                }
                TyKind::Keyof(Box::new((**t).clone()))
            },
            TyKind::This => TyKind::This,
            TyKind::UniqueSymbol => TyKind::UniqueSymbol,
        };
        Ty { no_generalize: self.no_generalize, kind }
    }
}

} // verus!
