//! The type algebra: keywords, literals, unions, intersections, classes,
//! interfaces, and the structural equality relation `type_eq` over them.
//!
//! Identifiers, property keys and string literal values are globally interned
//! symbols; a symbol is represented by its intern id (`Sym`). The checker
//! only ever compares symbols for equality.
//!
//! Every executable type has a ghost mirror (`TyV` and friends) reached
//! through `View`; all contracts in the crate speak about the mirrors.

use vstd::prelude::*;

verus! {

/// An interned identifier symbol.
pub type Sym = u32;

/// Keyword (built-in) types.
#[derive(Clone, Copy, PartialEq, Eq, Structural, Debug)]
pub enum Kwd {
    Any,
    Unknown,
    Number,
    Str,
    Boolean,
    Void,
    Undefined,
    Null,
    Never,
    Object,
    BigInt,
    Symbol,
}

/// Literal type payloads. Numeric literals are integers in this model;
/// string literal values are interned symbols.
#[derive(Clone, Copy, PartialEq, Eq, Structural, Debug)]
pub enum LitVal {
    Num(i64),
    Str(Sym),
    Bool(bool),
    BigInt(i64),
}

/// The expression under a `typeof` query type: a dotted entity name, or an
/// `import(..)` form, which is out of scope for this engine.
pub enum QueryExpr {
    EntityName(Vec<Sym>),
    Import(Sym),
}

/// A type. The `no_generalize` flag is the mark set by `prevent_generalize`:
/// literal-widening passes skip a marked node. Structural equality ignores
/// the mark, exactly as it ignores nothing else.
pub struct Ty {
    pub no_generalize: bool,
    pub kind: TyKind,
}

/// The structural cases of a type.
pub enum TyKind {
    Keyword(Kwd),
    Lit(LitVal),
    /// A reference to a named type, resolved through the environment.
    Ref(Sym),
    /// A `typeof E` type at the type level.
    Query(QueryExpr),
    Union(Vec<Ty>),
    Intersection(Vec<Ty>),
    /// An instance of a class.
    Class(Box<ClassDef>),
    /// A class declaration itself (the type of the constructor value).
    ClassDef(Box<ClassDef>),
    Interface(Box<InterfaceDef>),
    TypeLit(Vec<TypeElement>),
    Tuple(Vec<Ty>),
    Array(Box<Ty>),
    Mapped,
    IndexedAccess,
    /// A type parameter, by name.
    Param(Sym),
    Enum(Sym),
    /// A variant of an enum: enum name, variant name.
    EnumVariant(Sym, Sym),
    /// The `keyof T` operator type.
    Keyof(Box<Ty>),
    This,
    UniqueSymbol,
}

/// A class definition: optional name, optional superclass, body members.
pub struct ClassDef {
    pub name: Option<Sym>,
    pub super_class: Option<Box<Ty>>,
    pub body: Vec<TypeElement>,
}

/// An interface definition: name, extended types, body members.
pub struct InterfaceDef {
    pub name: Sym,
    pub extends: Vec<Ty>,
    pub body: Vec<TypeElement>,
}

/// A member of an object-like type.
pub enum TypeElement {
    /// A property signature: key and type.
    Property(Sym, Ty),
    /// An index signature: parameter type and optional value annotation.
    Index(Ty, Option<Ty>),
    /// A method signature: key, type parameter count, parameters, return.
    Method(Sym, usize, Vec<Ty>, Option<Ty>),
    /// A call signature.
    Call,
    /// A construct signature.
    Constructor,
}

// ------------------------------------------------------------------
// Ghost mirrors.
// ------------------------------------------------------------------

/// Ghost mirror of `QueryExpr`.
#[verifier::ext_equal]
pub enum QueryV {
    EntityName(Seq<Sym>),
    Import(Sym),
}

/// Ghost mirror of `Ty`.
#[verifier::ext_equal]
pub struct TyV {
    pub no_generalize: bool,
    pub kind: TyKindV,
}

/// Ghost mirror of `TyKind`.
#[verifier::ext_equal]
pub enum TyKindV {
    Keyword(Kwd),
    Lit(LitVal),
    Ref(Sym),
    Query(QueryV),
    Union(Seq<TyV>),
    Intersection(Seq<TyV>),
    Class(ClassV),
    ClassDef(ClassV),
    Interface(InterfaceV),
    TypeLit(Seq<ElemV>),
    Tuple(Seq<TyV>),
    Array(Box<TyV>),
    Mapped,
    IndexedAccess,
    Param(Sym),
    Enum(Sym),
    EnumVariant(Sym, Sym),
    Keyof(Box<TyV>),
    This,
    UniqueSymbol,
}

/// Ghost mirror of `ClassDef`.
#[verifier::ext_equal]
pub struct ClassV {
    pub name: Option<Sym>,
    pub super_class: Option<Box<TyV>>,
    pub body: Seq<ElemV>,
}

/// Ghost mirror of `InterfaceDef`.
#[verifier::ext_equal]
pub struct InterfaceV {
    pub name: Sym,
    pub extends: Seq<TyV>,
    pub body: Seq<ElemV>,
}

/// Ghost mirror of `TypeElement`.
#[verifier::ext_equal]
pub enum ElemV {
    Property(Sym, TyV),
    Index(TyV, Option<Box<TyV>>),
    Method(Sym, nat, Seq<TyV>, Option<Box<TyV>>),
    Call,
    Constructor,
}

// ------------------------------------------------------------------
// Views.
// ------------------------------------------------------------------

/// The ghost mirror of a type.
pub open spec fn ty_view(t: Ty) -> TyV
    decreases t,
{
    TyV { no_generalize: t.no_generalize, kind: kind_view(t.kind) }
}

/// The ghost mirror of a type's structural case.
pub open spec fn kind_view(k: TyKind) -> TyKindV
    decreases k,
{
    match k {
        TyKind::Keyword(x) => TyKindV::Keyword(x),
        TyKind::Lit(x) => TyKindV::Lit(x),
        TyKind::Ref(n) => TyKindV::Ref(n),
        TyKind::Query(q) => TyKindV::Query(query_view(q)),
        TyKind::Union(ts) => TyKindV::Union(tys_view(ts@)),
        TyKind::Intersection(ts) => TyKindV::Intersection(tys_view(ts@)),
        TyKind::Class(d) => TyKindV::Class(class_view(*d)),
        TyKind::ClassDef(d) => TyKindV::ClassDef(class_view(*d)),
        TyKind::Interface(d) => TyKindV::Interface(iface_view(*d)),
        TyKind::TypeLit(es) => TyKindV::TypeLit(elems_view(es@)),
        TyKind::Tuple(ts) => TyKindV::Tuple(tys_view(ts@)),
        TyKind::Array(t) => TyKindV::Array(Box::new(ty_view(*t))),
        TyKind::Mapped => TyKindV::Mapped,
        TyKind::IndexedAccess => TyKindV::IndexedAccess,
        TyKind::Param(n) => TyKindV::Param(n),
        TyKind::Enum(n) => TyKindV::Enum(n),
        TyKind::EnumVariant(e, v) => TyKindV::EnumVariant(e, v),
        TyKind::Keyof(t) => TyKindV::Keyof(Box::new(ty_view(*t))),
        TyKind::This => TyKindV::This,
        TyKind::UniqueSymbol => TyKindV::UniqueSymbol,
    }
}

/// The ghost mirror of a sequence of types.
pub open spec fn tys_view(s: Seq<Ty>) -> Seq<TyV>
    decreases s,
{
    if s.len() == 0 {
        Seq::empty()
    } else {
        seq![ty_view(s[0])] + tys_view(s.drop_first())
    }
}

/// The ghost mirror of a query expression.
pub open spec fn query_view(q: QueryExpr) -> QueryV {
    match q {
        QueryExpr::EntityName(ids) => QueryV::EntityName(ids@),
        QueryExpr::Import(s) => QueryV::Import(s),
    }
}

/// The ghost mirror of a class definition.
pub open spec fn class_view(d: ClassDef) -> ClassV
    decreases d,
{
    ClassV {
        name: d.name,
        super_class: match d.super_class {
            Some(t) => Some(Box::new(ty_view(*t))),
            None => None,
        },
        body: elems_view(d.body@),
    }
}

/// The ghost mirror of an interface definition.
pub open spec fn iface_view(d: InterfaceDef) -> InterfaceV
    decreases d,
{
    InterfaceV { name: d.name, extends: tys_view(d.extends@), body: elems_view(d.body@) }
}

/// The ghost mirror of a sequence of members.
pub open spec fn elems_view(s: Seq<TypeElement>) -> Seq<ElemV>
    decreases s,
{
    if s.len() == 0 {
        Seq::empty()
    } else {
        seq![elem_view(s[0])] + elems_view(s.drop_first())
    }
}

/// The ghost mirror of a member.
pub open spec fn elem_view(e: TypeElement) -> ElemV
    decreases e,
{
    match e {
        TypeElement::Property(k, t) => ElemV::Property(k, ty_view(t)),
        TypeElement::Index(p, a) => ElemV::Index(
            ty_view(p),
            match a {
                Some(t) => Some(Box::new(ty_view(t))),
                None => None,
            },
        ),
        TypeElement::Method(k, n, ps, r) => ElemV::Method(
            k,
            n as nat,
            tys_view(ps@),
            match r {
                Some(t) => Some(Box::new(ty_view(t))),
                None => None,
            },
        ),
        TypeElement::Call => ElemV::Call,
        TypeElement::Constructor => ElemV::Constructor,
    }
}

impl View for Ty {
    type V = TyV;

    open spec fn view(&self) -> TyV {
        ty_view(*self)
    }
}

impl View for TypeElement {
    type V = ElemV;

    open spec fn view(&self) -> ElemV {
        elem_view(*self)
    }
}

/// `tys_view` is the pointwise mirror of its argument.
pub broadcast proof fn lemma_tys_view(s: Seq<Ty>)
    ensures
        (#[trigger] tys_view(s)).len() == s.len(),
        forall|i: int| 0 <= i < s.len() ==> tys_view(s)[i] == ty_view(s[i]),
    decreases s,
{
    if s.len() > 0 {
        lemma_tys_view(s.drop_first());
    }
}

/// `elems_view` is the pointwise mirror of its argument.
pub broadcast proof fn lemma_elems_view(s: Seq<TypeElement>)
    ensures
        (#[trigger] elems_view(s)).len() == s.len(),
        forall|i: int| 0 <= i < s.len() ==> elems_view(s)[i] == elem_view(s[i]),
    decreases s,
{
    if s.len() > 0 {
        lemma_elems_view(s.drop_first());
    }
}

} // verus!
