//! One-level canonicalization of types: the `union` / `intersection` smart
//! constructors, `normalize`, `remove_falsy`, and the literal-widening passes
//! `generalize_lit` and `force_generalize_top_level_literals`.
//!
//! A union built here is `fixed`: it contains no nested unions and no two
//! members that are `type_eq`. `normalize` and `remove_falsy` and
//! `generalize_lit` are idempotent; the proofs are at the end of the module.

use vstd::prelude::*;
use crate::ty::Kwd;
use crate::ty::LitVal;
use crate::ty::Ty;
use crate::ty::TyKind;
use crate::ty::TyKindV;
use crate::ty::TyV;
use crate::ty::lemma_tys_view;
use crate::ty::ty_view;
use crate::ty::tys_view;
use crate::structural::ty_eq;
use crate::structural::type_eq;
use crate::sym::SYM_EMPTY;

verus! {

// ------------------------------------------------------------------
// Small constructors and predicates.
// ------------------------------------------------------------------

/// An unmarked type with the given structural case.
pub open spec fn mk_v(k: TyKindV) -> TyV {
    TyV { no_generalize: false, kind: k }
}

/// An unmarked keyword type.
pub open spec fn kw_v(k: Kwd) -> TyV {
    mk_v(TyKindV::Keyword(k))
}

impl Ty {
    /// An unmarked keyword type.
    pub fn kw(k: Kwd) -> (r: Ty)
        ensures r@ == kw_v(k),
    {
        Ty { no_generalize: false, kind: TyKind::Keyword(k) }
    }

    /// An unmarked literal type.
    pub fn lit(v: LitVal) -> (r: Ty)
        ensures r@ == mk_v(TyKindV::Lit(v)),
    {
        Ty { no_generalize: false, kind: TyKind::Lit(v) }
    }

    /// Whether this is the given keyword.
    pub fn is_kwd(&self, k: Kwd) -> (r: bool)
        ensures r == is_kwd_v(self@, k),
    {
        match &self.kind {
            TyKind::Keyword(x) => *x == k,
            _ => false,
        }
    }

    /// Whether this is `any`.
    pub fn is_any(&self) -> (r: bool)
        ensures r == is_kwd_v(self@, Kwd::Any),
    {
        self.is_kwd(Kwd::Any)
    }

    /// Whether this is `never`.
    pub fn is_never(&self) -> (r: bool)
        ensures r == is_kwd_v(self@, Kwd::Never),
    {
        self.is_kwd(Kwd::Never)
    }

    /// Whether this is the `number` keyword or a numeric literal.
    pub fn is_num(&self) -> (r: bool)
        ensures r == is_num_v(self@),
    {
        match &self.kind {
            TyKind::Keyword(Kwd::Number) => true,
            TyKind::Lit(LitVal::Num(_)) => true,
            _ => false,
        }
    }

    /// Whether this is the `string` keyword or a string literal.
    pub fn is_str(&self) -> (r: bool)
        ensures r == is_str_v(self@),
    {
        match &self.kind {
            TyKind::Keyword(Kwd::Str) => true,
            TyKind::Lit(LitVal::Str(_)) => true,
            _ => false,
        }
    }

    /// Whether this is a numeric literal type.
    pub fn is_num_lit(&self) -> (r: bool)
        ensures r == is_num_lit_v(self@),
    {
        matches!(&self.kind, TyKind::Lit(LitVal::Num(_)))
    }

    /// Whether this is a string literal type.
    pub fn is_str_lit(&self) -> (r: bool)
        ensures r == is_str_lit_v(self@),
    {
        matches!(&self.kind, TyKind::Lit(LitVal::Str(_)))
    }

    /// Whether this is a type parameter.
    pub fn is_type_param(&self) -> (r: bool)
        ensures r == (self@.kind is Param),
    {
        matches!(&self.kind, TyKind::Param(_))
    }

    /// Whether this is an interface type.
    pub fn is_interface(&self) -> (r: bool)
        ensures r == (self@.kind is Interface),
    {
        matches!(&self.kind, TyKind::Interface(_))
    }

    /// Whether this is a reference type.
    pub fn is_ref_type(&self) -> (r: bool)
        ensures r == (self@.kind is Ref),
    {
        matches!(&self.kind, TyKind::Ref(_))
    }

    /// Whether this is an enum type.
    pub fn is_enum_type(&self) -> (r: bool)
        ensures r == (self@.kind is Enum),
    {
        matches!(&self.kind, TyKind::Enum(_))
    }

    /// Whether this is an enum variant type.
    pub fn is_enum_variant(&self) -> (r: bool)
        ensures r == (self@.kind is EnumVariant),
    {
        matches!(&self.kind, TyKind::EnumVariant(_, _))
    }

    /// Whether this is a union type.
    pub fn is_union_type(&self) -> (r: bool)
        ensures r == (self@.kind is Union),
    {
        matches!(&self.kind, TyKind::Union(_))
    }

    /// Whether this is an intersection type.
    pub fn is_intersection_type(&self) -> (r: bool)
        ensures r == (self@.kind is Intersection),
    {
        matches!(&self.kind, TyKind::Intersection(_))
    }

    /// Whether this is a tuple type.
    pub fn is_tuple(&self) -> (r: bool)
        ensures r == (self@.kind is Tuple),
    {
        matches!(&self.kind, TyKind::Tuple(_))
    }

    /// Whether this is an array type.
    pub fn is_array(&self) -> (r: bool)
        ensures r == (self@.kind is Array),
    {
        matches!(&self.kind, TyKind::Array(_))
    }

    /// Whether further literal widening is allowed on this node: true unless
    /// `prevent_generalize` marked it.
    pub fn may_generalize(&self) -> (r: bool)
        ensures r == !self@.no_generalize,
    {
        !self.no_generalize
    }

    /// Mark this node so literal-widening passes skip it.
    pub fn prevent_generalize(&mut self)
        ensures final(self)@ == (TyV { no_generalize: true, ..old(self)@ }),
    {
        self.no_generalize = true;
    }
}

/// Whether `t` is the given keyword.
pub open spec fn is_kwd_v(t: TyV, k: Kwd) -> bool {
    t.kind == TyKindV::Keyword(k)
}

/// Whether `t` is the `number` keyword or a numeric literal.
pub open spec fn is_num_v(t: TyV) -> bool {
    t.kind == TyKindV::Keyword(Kwd::Number) || t.kind matches TyKindV::Lit(LitVal::Num(_))
}

/// Whether `t` is the `string` keyword or a string literal.
pub open spec fn is_str_v(t: TyV) -> bool {
    t.kind == TyKindV::Keyword(Kwd::Str) || t.kind matches TyKindV::Lit(LitVal::Str(_))
}

/// Whether `t` is a numeric literal type.
pub open spec fn is_num_lit_v(t: TyV) -> bool {
    t.kind matches TyKindV::Lit(LitVal::Num(_))
}

/// Whether `t` is a string literal type.
pub open spec fn is_str_lit_v(t: TyV) -> bool {
    t.kind matches TyKindV::Lit(LitVal::Str(_))
}

/// Whether `t` is the `boolean` keyword or a boolean literal.
pub open spec fn is_bool_like_v(t: TyV) -> bool {
    t.kind == TyKindV::Keyword(Kwd::Boolean) || t.kind matches TyKindV::Lit(LitVal::Bool(_))
}

/// Whether `t` is a string literal, or a union whose members all are.
pub open spec fn is_str_lit_or_union_v(t: TyV) -> bool {
    match t.kind {
        TyKindV::Lit(LitVal::Str(_)) => true,
        TyKindV::Union(ts) => forall|i: int| 0 <= i < ts.len() ==> is_str_lit_v(#[trigger] ts[i]),
        _ => false,
    }
}

/// Whether `t` is string-like, or a union whose members all are.
pub open spec fn is_str_or_union_v(t: TyV) -> bool {
    match t.kind {
        TyKindV::Keyword(Kwd::Str) => true,
        TyKindV::Lit(LitVal::Str(_)) => true,
        TyKindV::Union(ts) => forall|i: int| 0 <= i < ts.len() ==> is_str_v(#[trigger] ts[i]),
        _ => false,
    }
}

/// Whether `t` is a string literal, or a union whose members all are.
#[verifier::loop_isolation(false)]
pub fn is_str_lit_or_union(t: &Ty) -> (r: bool)
    ensures r == is_str_lit_or_union_v(t@),
{
    match &t.kind {
        TyKind::Lit(LitVal::Str(_)) => true,
        TyKind::Union(ts) => {
            proof {
                lemma_tys_view(ts@);
                assert(t@.kind == TyKindV::Union(tys_view(ts@)));
            }
            let mut i: usize = 0;
            while i < ts.len()
                invariant
                    i <= ts.len(),
                    tys_view(ts@).len() == ts@.len(),
                    forall|j: int| 0 <= j < ts@.len() ==> tys_view(ts@)[j] == ty_view(ts@[j]),
                    forall|j: int| 0 <= j < i as int ==> is_str_lit_v(#[trigger] tys_view(ts@)[j]),
                decreases ts@.len() - i as int,
            {
                if !ts[i].is_str_lit() {
                    proof {
                        assert(t@.kind == TyKindV::Union(tys_view(ts@)));
                        assert(t@.kind->Union_0 == tys_view(ts@));
                        assert(!is_str_lit_v(t@.kind->Union_0[i as int]));
                    }
                    return false;
                }
                i = i + 1;
            }
            true
        },
        _ => false,
    }
}

/// Whether `t` is string-like, or a union whose members all are.
#[verifier::loop_isolation(false)]
pub fn is_str_or_union(t: &Ty) -> (r: bool)
    ensures r == is_str_or_union_v(t@),
{
    match &t.kind {
        TyKind::Keyword(Kwd::Str) => true,
        TyKind::Lit(LitVal::Str(_)) => true,
        TyKind::Union(ts) => {
            proof {
                lemma_tys_view(ts@);
                assert(t@.kind == TyKindV::Union(tys_view(ts@)));
            }
            let mut i: usize = 0;
            while i < ts.len()
                invariant
                    i <= ts.len(),
                    tys_view(ts@).len() == ts@.len(),
                    forall|j: int| 0 <= j < ts@.len() ==> tys_view(ts@)[j] == ty_view(ts@[j]),
                    forall|j: int| 0 <= j < i as int ==> is_str_v(#[trigger] tys_view(ts@)[j]),
                decreases ts@.len() - i as int,
            {
                if !ts[i].is_str() {
                    proof {
                        assert(t@.kind == TyKindV::Union(tys_view(ts@)));
                        assert(t@.kind->Union_0 == tys_view(ts@));
                        assert(!is_str_v(t@.kind->Union_0[i as int]));
                    }
                    return false;
                }
                i = i + 1;
            }
            true
        },
        _ => false,
    }
}

/// Whether a value of this type is always falsy: `null`, `undefined`,
/// `false`, `0`, the empty string, or the `0n` big-int literal.
pub open spec fn falsy_v(t: TyV) -> bool {
    ||| t.kind == TyKindV::Keyword(Kwd::Null)
    ||| t.kind == TyKindV::Keyword(Kwd::Undefined)
    ||| t.kind == TyKindV::Lit(LitVal::Bool(false))
    ||| t.kind == TyKindV::Lit(LitVal::Num(0))
    ||| t.kind == TyKindV::Lit(LitVal::Str(SYM_EMPTY))
    ||| t.kind == TyKindV::Lit(LitVal::BigInt(0))
}

/// Whether `t` is always falsy.
pub fn is_falsy(t: &Ty) -> (r: bool)
    ensures r == falsy_v(t@),
{
    match &t.kind {
        TyKind::Keyword(Kwd::Null) => true,
        TyKind::Keyword(Kwd::Undefined) => true,
        TyKind::Lit(LitVal::Bool(b)) => !*b,
        TyKind::Lit(LitVal::Num(n)) => *n == 0,
        TyKind::Lit(LitVal::Str(s)) => *s == SYM_EMPTY,
        TyKind::Lit(LitVal::BigInt(n)) => *n == 0,
        _ => false,
    }
}

/// The statically known truth value of a type, where one exists: literals
/// and the two nullish keywords decide it; everything else is unknown.
pub open spec fn static_truth_v(t: TyV) -> Option<bool> {
    match t.kind {
        TyKindV::Lit(LitVal::Bool(b)) => Some(b),
        TyKindV::Lit(LitVal::Num(n)) => Some(n != 0),
        TyKindV::Lit(LitVal::Str(s)) => Some(s != SYM_EMPTY),
        TyKindV::Lit(LitVal::BigInt(n)) => Some(n != 0),
        TyKindV::Keyword(Kwd::Null) => Some(false),
        TyKindV::Keyword(Kwd::Undefined) => Some(false),
        _ => None,
    }
}

/// The statically known truth value of `t`, where one exists.
pub fn static_truth(t: &Ty) -> (r: Option<bool>)
    ensures r == static_truth_v(t@),
{
    match &t.kind {
        TyKind::Lit(LitVal::Bool(b)) => Some(*b),
        TyKind::Lit(LitVal::Num(n)) => Some(*n != 0),
        TyKind::Lit(LitVal::Str(s)) => Some(*s != SYM_EMPTY),
        TyKind::Lit(LitVal::BigInt(n)) => Some(*n != 0),
        TyKind::Keyword(Kwd::Null) => Some(false),
        TyKind::Keyword(Kwd::Undefined) => Some(false),
        _ => None,
    }
}


// ------------------------------------------------------------------
// Union and intersection fixing.
// ------------------------------------------------------------------

/// Whether some member of `s` is `type_eq` to `t`.
pub open spec fn contains_eq(s: Seq<TyV>, t: TyV) -> bool {
    exists|i: int| 0 <= i < s.len() && ty_eq(#[trigger] s[i], t)
}

/// Splice the members of nested unions, recursively, so that no member of
/// the result is itself a union.
pub open spec fn flatten_v(s: Seq<TyV>) -> Seq<TyV>
    decreases s,
{
    if s.len() == 0 {
        Seq::empty()
    } else {
        (match s[0].kind {
            TyKindV::Union(ms) => flatten_v(ms),
            _ => seq![s[0]],
        }) + flatten_v(s.drop_first())
    }
}

/// Splice the members of nested intersections, recursively.
pub open spec fn flatten_inter_v(s: Seq<TyV>) -> Seq<TyV>
    decreases s,
{
    if s.len() == 0 {
        Seq::empty()
    } else {
        (match s[0].kind {
            TyKindV::Intersection(ms) => flatten_inter_v(ms),
            _ => seq![s[0]],
        }) + flatten_inter_v(s.drop_first())
    }
}

/// Keep the first of every group of `type_eq`-equal members.
pub open spec fn dedup_v(s: Seq<TyV>) -> Seq<TyV>
    decreases s,
{
    if s.len() == 0 {
        Seq::empty()
    } else {
        let rest = dedup_v(s.drop_last());
        if contains_eq(s.drop_last(), s.last()) {
            rest
        } else {
            rest.push(s.last())
        }
    }
}

/// The members of `s` that are not always falsy.
pub open spec fn filter_falsy_v(s: Seq<TyV>) -> Seq<TyV>
    decreases s,
{
    if s.len() == 0 {
        Seq::empty()
    } else {
        (if falsy_v(s[0]) {
            Seq::<TyV>::empty()
        } else {
            seq![s[0]]
        }) + filter_falsy_v(s.drop_first())
    }
}

/// A union node over already flattened and deduplicated members: `never`
/// when empty, the single member alone, else a `Union` carrying `mark`.
pub open spec fn union_of_fixed_v(u: Seq<TyV>, mark: bool) -> TyV {
    if u.len() == 0 {
        kw_v(Kwd::Never)
    } else if u.len() == 1 {
        u[0]
    } else {
        TyV { no_generalize: mark, kind: TyKindV::Union(u) }
    }
}

/// The `union` smart constructor: flatten, de-duplicate, collapse.
pub open spec fn union_v(s: Seq<TyV>) -> TyV {
    union_of_fixed_v(dedup_v(flatten_v(s)), false)
}

/// An intersection node over fixed members.
pub open spec fn inter_of_fixed_v(u: Seq<TyV>, mark: bool) -> TyV {
    if u.len() == 0 {
        kw_v(Kwd::Never)
    } else if u.len() == 1 {
        u[0]
    } else {
        TyV { no_generalize: mark, kind: TyKindV::Intersection(u) }
    }
}

/// The `intersection` smart constructor: flatten, de-duplicate, collapse.
pub open spec fn intersection_v(s: Seq<TyV>) -> TyV {
    inter_of_fixed_v(dedup_v(flatten_inter_v(s)), false)
}

/// Flattening distributes over append.
pub proof fn lemma_flatten_append(a: Seq<TyV>, b: Seq<TyV>)
    ensures flatten_v(a + b) == flatten_v(a) + flatten_v(b),
    decreases a,
{
    if a.len() == 0 {
        assert(a + b =~= b);
        assert(flatten_v(a) + flatten_v(b) =~= flatten_v(b));
    } else {
        assert((a + b).drop_first() =~= a.drop_first() + b);
        lemma_flatten_append(a.drop_first(), b);
        assert((a + b)[0] == a[0]);
        assert(flatten_v(a + b) =~= flatten_v(a) + flatten_v(b));
    }
}

/// Intersection flattening distributes over append.
pub proof fn lemma_flatten_inter_append(a: Seq<TyV>, b: Seq<TyV>)
    ensures flatten_inter_v(a + b) == flatten_inter_v(a) + flatten_inter_v(b),
    decreases a,
{
    if a.len() == 0 {
        assert(a + b =~= b);
        assert(flatten_inter_v(a) + flatten_inter_v(b) =~= flatten_inter_v(b));
    } else {
        assert((a + b).drop_first() =~= a.drop_first() + b);
        lemma_flatten_inter_append(a.drop_first(), b);
        assert((a + b)[0] == a[0]);
        assert(flatten_inter_v(a + b) =~= flatten_inter_v(a) + flatten_inter_v(b));
    }
}

/// Filtering falsy members distributes over append.
pub proof fn lemma_filter_falsy_append(a: Seq<TyV>, b: Seq<TyV>)
    ensures filter_falsy_v(a + b) == filter_falsy_v(a) + filter_falsy_v(b),
    decreases a,
{
    if a.len() == 0 {
        assert(a + b =~= b);
        assert(filter_falsy_v(a) + filter_falsy_v(b) =~= filter_falsy_v(b));
    } else {
        assert((a + b).drop_first() =~= a.drop_first() + b);
        lemma_filter_falsy_append(a.drop_first(), b);
        assert((a + b)[0] == a[0]);
        assert(filter_falsy_v(a + b) =~= filter_falsy_v(a) + filter_falsy_v(b));
    }
}

/// De-duplication keeps exactly the `type_eq`-membership of its input.
pub proof fn lemma_dedup_contains(s: Seq<TyV>, x: TyV)
    ensures contains_eq(dedup_v(s), x) == contains_eq(s, x),
    decreases s,
{
    if s.len() > 0 {
        lemma_dedup_contains(s.drop_last(), x);
        let d = dedup_v(s);
        let rest = dedup_v(s.drop_last());
        if contains_eq(s.drop_last(), s.last()) {
            assert forall|i: int| 0 <= i < s.len() && ty_eq(#[trigger] s[i], x) implies contains_eq(d, x) by {
                if i < s.len() - 1 {
                    assert(s.drop_last()[i] == s[i]);
                    assert(contains_eq(s.drop_last(), x));
                } else {
                    assert(ty_eq(s.last(), x));
                    let j = choose|j: int| 0 <= j < s.drop_last().len() && ty_eq(#[trigger] s.drop_last()[j], s.last());
                    lemma_ty_eq_trans_helper(s.drop_last()[j], s.last(), x);
                    assert(contains_eq(s.drop_last(), x));
                }
            }
            assert forall|i: int| 0 <= i < d.len() && ty_eq(#[trigger] d[i], x) implies contains_eq(s, x) by {
                assert(contains_eq(rest, x));
                let j = choose|j: int| 0 <= j < s.drop_last().len() && ty_eq(#[trigger] s.drop_last()[j], x);
                assert(s[j] == s.drop_last()[j]);
            }
        } else {
            assert(d == rest.push(s.last()));
            if contains_eq(s, x) {
                let i = choose|i: int| 0 <= i < s.len() && ty_eq(#[trigger] s[i], x);
                if i < s.len() - 1 {
                    assert(s.drop_last()[i] == s[i]);
                    assert(contains_eq(s.drop_last(), x));
                    let j = choose|j: int| 0 <= j < rest.len() && ty_eq(#[trigger] rest[j], x);
                    assert(d[j] == rest[j]);
                    assert(contains_eq(d, x));
                } else {
                    assert(d[d.len() - 1] == s.last());
                    assert(contains_eq(d, x));
                }
            }
            if contains_eq(d, x) {
                let i = choose|i: int| 0 <= i < d.len() && ty_eq(#[trigger] d[i], x);
                if i < d.len() - 1 {
                    assert(rest[i] == d[i]);
                    assert(contains_eq(rest, x));
                    let j = choose|j: int| 0 <= j < s.drop_last().len() && ty_eq(#[trigger] s.drop_last()[j], x);
                    assert(s[j] == s.drop_last()[j]);
                    assert(contains_eq(s, x));
                } else {
                    assert(d[i] == s.last());
                    assert(ty_eq(s[s.len() - 1], x));
                    assert(contains_eq(s, x));
                }
            }
        }
    }
}

/// `type_eq` is transitive; stated here for the two-step uses above.
pub proof fn lemma_ty_eq_trans_helper(a: TyV, b: TyV, c: TyV)
    requires ty_eq(a, b), ty_eq(b, c),
    ensures ty_eq(a, c),
{
    crate::structural::lemma_ty_eq_trans(a, b, c);
}


// ------------------------------------------------------------------
// Executable canonicalization.
// ------------------------------------------------------------------

/// Whether some member of `v` is `type_eq` to `t`.
#[verifier::loop_isolation(false)]
pub fn contains_ty(v: &Vec<Ty>, t: &Ty) -> (r: bool)
    ensures r == contains_eq(tys_view(v@), t@),
{
    proof {
        lemma_tys_view(v@);
    }
    let mut i: usize = 0;
    while i < v.len()
        invariant
            i <= v.len(),
            forall|j: int| 0 <= j < i as int ==> !ty_eq(#[trigger] tys_view(v@)[j], t@),
        decreases v@.len() - i as int,
    {
        if type_eq(&v[i], t) {
            assert(ty_eq(tys_view(v@)[i as int], t@));
            return true;
        }
        i = i + 1;
    }
    false
}

/// Append the flattened members of `ts` to `out`.
#[verifier::loop_isolation(false)]
fn flatten_into(ts: &Vec<Ty>, out: &mut Vec<Ty>)
    ensures tys_view(final(out)@) == tys_view(old(out)@) + flatten_v(tys_view(ts@)),
    decreases tys_view(ts@),
{
    proof {
        lemma_tys_view(ts@);
    }
    let ghost s = tys_view(ts@);
    let mut i: usize = 0;
    while i < ts.len()
        invariant
            i <= ts.len(),
            tys_view(out@) == tys_view(old(out)@) + flatten_v(s.take(i as int)),
        decreases ts@.len() - i as int,
    {
        proof {
            lemma_tys_view(ts@);
            assert(s[i as int] == ty_view(ts@[i as int]));
            assert(s.take(i as int + 1) =~= s.take(i as int) + seq![s[i as int]]);
            lemma_flatten_append(s.take(i as int), seq![s[i as int]]);
            let one = seq![s[i as int]];
            assert(one.drop_first() =~= Seq::<TyV>::empty());
            assert(flatten_v(Seq::<TyV>::empty()) == Seq::<TyV>::empty());
            assert(one[0] == s[i as int]);
            assert(flatten_v(one) =~= (match s[i as int].kind {
                TyKindV::Union(ms) => flatten_v(ms),
                _ => one,
            }));
        }
        match &ts[i].kind {
            TyKind::Union(inner) => {
                proof {
                    assert(decreases_to!(s => s[i as int]));
                    assert(decreases_to!(s[i as int] => s[i as int].kind));
                    assert(s[i as int].kind->Union_0 == tys_view(inner@));
                    assert(decreases_to!(s[i as int].kind => s[i as int].kind->Union_0));
                }
                flatten_into(inner, out);
            },
            _ => {
                let ghost prev = out@;
                let c = ts[i].clone();
                out.push(c);
                proof {
                    lemma_tys_view(prev);
                    lemma_tys_view(out@);
                    assert(out@ =~= prev.push(c));
                    assert(!(ts@[i as int]@.kind is Union));
                    assert(!(s[i as int].kind is Union));
                    assert(flatten_v(seq![s[i as int]]) =~= seq![s[i as int]]);
                    assert(c@ == s[i as int]);
                    assert(tys_view(prev) == tys_view(old(out)@) + flatten_v(s.take(i as int)));
                    assert(flatten_v(s.take(i as int + 1)) =~= flatten_v(s.take(i as int)) + seq![s[i as int]]);
                    assert(tys_view(out@) =~= tys_view(prev).push(s[i as int]));
                    assert(tys_view(out@) =~= tys_view(old(out)@) + flatten_v(s.take(i as int + 1)));
                }
            },
        }
        proof {
            assert(tys_view(out@) =~= tys_view(old(out)@) + flatten_v(s.take(i as int + 1)));
        }
        i = i + 1;
    }
    proof {
        assert(s.take(ts@.len() as int) =~= s);
    }
}

/// Append the intersection-flattened members of `ts` to `out`.
#[verifier::loop_isolation(false)]
fn flatten_inter_into(ts: &Vec<Ty>, out: &mut Vec<Ty>)
    ensures tys_view(final(out)@) == tys_view(old(out)@) + flatten_inter_v(tys_view(ts@)),
    decreases tys_view(ts@),
{
    proof {
        lemma_tys_view(ts@);
    }
    let ghost s = tys_view(ts@);
    let mut i: usize = 0;
    while i < ts.len()
        invariant
            i <= ts.len(),
            tys_view(out@) == tys_view(old(out)@) + flatten_inter_v(s.take(i as int)),
        decreases ts@.len() - i as int,
    {
        proof {
            lemma_tys_view(ts@);
            assert(s[i as int] == ty_view(ts@[i as int]));
            assert(s.take(i as int + 1) =~= s.take(i as int) + seq![s[i as int]]);
            lemma_flatten_inter_append(s.take(i as int), seq![s[i as int]]);
            let one = seq![s[i as int]];
            assert(one.drop_first() =~= Seq::<TyV>::empty());
            assert(flatten_inter_v(Seq::<TyV>::empty()) == Seq::<TyV>::empty());
            assert(one[0] == s[i as int]);
            assert(flatten_inter_v(one) =~= (match s[i as int].kind {
                TyKindV::Intersection(ms) => flatten_inter_v(ms),
                _ => one,
            }));
        }
        match &ts[i].kind {
            TyKind::Intersection(inner) => {
                proof {
                    assert(decreases_to!(s => s[i as int]));
                    assert(decreases_to!(s[i as int] => s[i as int].kind));
                    assert(s[i as int].kind->Intersection_0 == tys_view(inner@));
                    assert(decreases_to!(s[i as int].kind => s[i as int].kind->Intersection_0));
                }
                flatten_inter_into(inner, out);
            },
            _ => {
                let ghost prev = out@;
                let c = ts[i].clone();
                out.push(c);
                proof {
                    lemma_tys_view(prev);
                    lemma_tys_view(out@);
                    assert(out@ =~= prev.push(c));
                    assert(!(ts@[i as int]@.kind is Intersection));
                    assert(!(s[i as int].kind is Intersection));
                    assert(flatten_inter_v(seq![s[i as int]]) =~= seq![s[i as int]]);
                    assert(c@ == s[i as int]);
                    assert(tys_view(prev) == tys_view(old(out)@) + flatten_inter_v(s.take(i as int)));
                    assert(flatten_inter_v(s.take(i as int + 1)) =~= flatten_inter_v(s.take(i as int)) + seq![s[i as int]]);
                    assert(tys_view(out@) =~= tys_view(prev).push(s[i as int]));
                    assert(tys_view(out@) =~= tys_view(old(out)@) + flatten_inter_v(s.take(i as int + 1)));
                }
            },
        }
        proof {
            assert(tys_view(out@) =~= tys_view(old(out)@) + flatten_inter_v(s.take(i as int + 1)));
        }
        i = i + 1;
    }
    proof {
        assert(s.take(ts@.len() as int) =~= s);
    }
}

/// Keep the first of every group of `type_eq`-equal members of `v`.
#[verifier::loop_isolation(false)]
fn dedup_tys(v: Vec<Ty>) -> (r: Vec<Ty>)
    ensures tys_view(r@) == dedup_v(tys_view(v@)),
{
    proof {
        lemma_tys_view(v@);
    }
    let ghost s = tys_view(v@);
    let mut out: Vec<Ty> = Vec::new();
    let mut i: usize = 0;
    while i < v.len()
        invariant
            i <= v.len(),
            tys_view(out@) == dedup_v(s.take(i as int)),
        decreases v@.len() - i as int,
    {
        proof {
            assert(s.take(i as int + 1).drop_last() =~= s.take(i as int));
            assert(s.take(i as int + 1).last() == s[i as int]);
            lemma_dedup_contains(s.take(i as int), s[i as int]);
        }
        if !contains_ty(&out, &v[i]) {
            let ghost prev = out@;
            let c = v[i].clone();
            out.push(c);
            proof {
                lemma_tys_view(prev);
                lemma_tys_view(out@);
                assert(out@ =~= prev.push(c));
                assert(s.take(i as int + 1).drop_last() =~= s.take(i as int));
                assert(tys_view(out@) =~= dedup_v(s.take(i as int + 1)));
            }
        } else {
            proof {
                assert(s.take(i as int + 1).drop_last() =~= s.take(i as int));
                assert(tys_view(out@) =~= dedup_v(s.take(i as int + 1)));
            }
        }
        i = i + 1;
    }
    proof {
        assert(s.take(v@.len() as int) =~= s);
    }
    out
}

/// Build the union node over fixed members, carrying `mark` on a `Union`.
fn union_of_fixed(mut u: Vec<Ty>, mark: bool) -> (r: Ty)
    ensures r@ == union_of_fixed_v(tys_view(u@), mark),
{
    proof {
        lemma_tys_view(u@);
    }
    let ghost u0 = u@;
    if u.len() == 0 {
        Ty::kw(Kwd::Never)
    } else if u.len() == 1 {
        let t = u.remove(0);
        proof {
            assert(t@ == tys_view(u0)[0]);
        }
        t
    } else {
        Ty { no_generalize: mark, kind: TyKind::Union(u) }
    }
}

/// Build the intersection node over fixed members.
fn inter_of_fixed(mut u: Vec<Ty>, mark: bool) -> (r: Ty)
    ensures r@ == inter_of_fixed_v(tys_view(u@), mark),
{
    proof {
        lemma_tys_view(u@);
    }
    let ghost u0 = u@;
    if u.len() == 0 {
        Ty::kw(Kwd::Never)
    } else if u.len() == 1 {
        let t = u.remove(0);
        proof {
            assert(t@ == tys_view(u0)[0]);
        }
        t
    } else {
        Ty { no_generalize: mark, kind: TyKind::Intersection(u) }
    }
}

/// The `union` smart constructor: flatten nested unions, drop duplicate
/// members, and collapse the empty and singleton cases.
pub fn union_from(ts: Vec<Ty>) -> (r: Ty)
    ensures r@ == union_v(tys_view(ts@)),
{
    let mut flat: Vec<Ty> = Vec::new();
    flatten_into(&ts, &mut flat);
    let u = dedup_tys(flat);
    union_of_fixed(u, false)
}

/// The `intersection` smart constructor.
pub fn intersection_from(ts: Vec<Ty>) -> (r: Ty)
    ensures r@ == intersection_v(tys_view(ts@)),
{
    let mut flat: Vec<Ty> = Vec::new();
    flatten_inter_into(&ts, &mut flat);
    let u = dedup_tys(flat);
    inter_of_fixed(u, false)
}


// ------------------------------------------------------------------
// Normalization, falsy removal, literal widening.
// ------------------------------------------------------------------

/// One-level canonicalization: fix unions and intersections, member-first;
/// leave every other case untouched. References are not expanded here.
pub open spec fn normalize_v(t: TyV) -> TyV
    decreases t,
{
    match t.kind {
        TyKindV::Union(ts) => union_of_fixed_v(
            dedup_v(flatten_v(normalize_each_v(ts))),
            t.no_generalize,
        ),
        TyKindV::Intersection(ts) => inter_of_fixed_v(
            dedup_v(flatten_inter_v(normalize_each_v(ts))),
            t.no_generalize,
        ),
        _ => t,
    }
}

/// Pointwise normalization of a member list.
pub open spec fn normalize_each_v(s: Seq<TyV>) -> Seq<TyV>
    decreases s,
{
    if s.len() == 0 {
        Seq::empty()
    } else {
        seq![normalize_v(s[0])] + normalize_each_v(s.drop_first())
    }
}

/// `normalize_each_v` is the pointwise map of `normalize_v`.
pub proof fn lemma_normalize_each(s: Seq<TyV>)
    ensures
        normalize_each_v(s).len() == s.len(),
        forall|i: int| 0 <= i < s.len() ==> #[trigger] normalize_each_v(s)[i] == normalize_v(s[i]),
    decreases s,
{
    if s.len() > 0 {
        lemma_normalize_each(s.drop_first());
        assert forall|i: int| 0 <= i < s.len() implies #[trigger] normalize_each_v(s)[i] == normalize_v(s[i]) by {
            if i > 0 {
                assert(s.drop_first()[i - 1] == s[i]);
                assert(normalize_each_v(s.drop_first())[i - 1] == normalize_v(s.drop_first()[i - 1]));
            }
        }
    }
}

/// Remove the always-falsy members from a union, collapsing to `never`
/// when nothing is left; turn a falsy non-union type into `never`.
pub open spec fn remove_falsy_v(t: TyV) -> TyV {
    match t.kind {
        TyKindV::Union(ts) => union_of_fixed_v(
            dedup_v(filter_falsy_v(flatten_v(ts))),
            t.no_generalize,
        ),
        _ => if falsy_v(t) {
            kw_v(Kwd::Never)
        } else {
            t
        },
    }
}

/// Widen an unmarked literal to its base keyword; recurse into union and
/// intersection members; skip any node `prevent_generalize` marked.
pub open spec fn generalize_lit_v(t: TyV) -> TyV
    decreases t,
{
    if t.no_generalize {
        t
    } else {
        match t.kind {
            TyKindV::Lit(LitVal::Num(_)) => kw_v(Kwd::Number),
            TyKindV::Lit(LitVal::Str(_)) => kw_v(Kwd::Str),
            TyKindV::Lit(LitVal::Bool(_)) => kw_v(Kwd::Boolean),
            TyKindV::Lit(LitVal::BigInt(_)) => kw_v(Kwd::BigInt),
            TyKindV::Union(ts) => TyV { no_generalize: false, kind: TyKindV::Union(gen_each_v(ts)) },
            TyKindV::Intersection(ts) => TyV {
                no_generalize: false,
                kind: TyKindV::Intersection(gen_each_v(ts)),
            },
            _ => t,
        }
    }
}

/// Pointwise literal widening of a member list.
pub open spec fn gen_each_v(s: Seq<TyV>) -> Seq<TyV>
    decreases s,
{
    if s.len() == 0 {
        Seq::empty()
    } else {
        seq![generalize_lit_v(s[0])] + gen_each_v(s.drop_first())
    }
}

/// `gen_each_v` is the pointwise map of `generalize_lit_v`.
pub proof fn lemma_gen_each(s: Seq<TyV>)
    ensures
        gen_each_v(s).len() == s.len(),
        forall|i: int| 0 <= i < s.len() ==> #[trigger] gen_each_v(s)[i] == generalize_lit_v(s[i]),
    decreases s,
{
    if s.len() > 0 {
        lemma_gen_each(s.drop_first());
        assert forall|i: int| 0 <= i < s.len() implies #[trigger] gen_each_v(s)[i] == generalize_lit_v(s[i]) by {
            if i > 0 {
                assert(s.drop_first()[i - 1] == s[i]);
                assert(gen_each_v(s.drop_first())[i - 1] == generalize_lit_v(s.drop_first()[i - 1]));
            }
        }
    }
}

/// Widen one literal node to its keyword, whatever its mark.
pub open spec fn force_lit_v(t: TyV) -> TyV {
    match t.kind {
        TyKindV::Lit(LitVal::Num(_)) => TyV { no_generalize: t.no_generalize, kind: TyKindV::Keyword(Kwd::Number) },
        TyKindV::Lit(LitVal::Str(_)) => TyV { no_generalize: t.no_generalize, kind: TyKindV::Keyword(Kwd::Str) },
        TyKindV::Lit(LitVal::Bool(_)) => TyV { no_generalize: t.no_generalize, kind: TyKindV::Keyword(Kwd::Boolean) },
        TyKindV::Lit(LitVal::BigInt(_)) => TyV { no_generalize: t.no_generalize, kind: TyKindV::Keyword(Kwd::BigInt) },
        _ => t,
    }
}

/// Unconditional literal widening at the top level and at the outermost
/// union members, marks notwithstanding.
pub open spec fn force_gen_top_v(t: TyV) -> TyV {
    match t.kind {
        TyKindV::Union(ts) => TyV { no_generalize: t.no_generalize, kind: TyKindV::Union(force_each_v(ts)) },
        _ => force_lit_v(t),
    }
}

/// Pointwise forced widening of a member list.
pub open spec fn force_each_v(s: Seq<TyV>) -> Seq<TyV>
    decreases s,
{
    if s.len() == 0 {
        Seq::empty()
    } else {
        seq![force_lit_v(s[0])] + force_each_v(s.drop_first())
    }
}

/// `force_each_v` is the pointwise map of `force_lit_v`.
pub proof fn lemma_force_each(s: Seq<TyV>)
    ensures
        force_each_v(s).len() == s.len(),
        forall|i: int| 0 <= i < s.len() ==> #[trigger] force_each_v(s)[i] == force_lit_v(s[i]),
    decreases s,
{
    if s.len() > 0 {
        lemma_force_each(s.drop_first());
        assert forall|i: int| 0 <= i < s.len() implies #[trigger] force_each_v(s)[i] == force_lit_v(s[i]) by {
            if i > 0 {
                assert(s.drop_first()[i - 1] == s[i]);
                assert(force_each_v(s.drop_first())[i - 1] == force_lit_v(s.drop_first()[i - 1]));
            }
        }
    }
}

impl Ty {
    /// One-level canonicalization of this type.
    #[verifier::loop_isolation(false)]
    pub fn normalize(&self) -> (r: Ty)
        ensures r@ == normalize_v(self@),
        decreases self@,
    {
        proof {
            assert(decreases_to!(self@ => self@.kind));
        }
        match &self.kind {
            TyKind::Union(ts) => {
                proof {
                    lemma_tys_view(ts@);
                    assert(self@.kind->Union_0 == tys_view(ts@));
                    assert(decreases_to!(self@.kind => self@.kind->Union_0));
                }
                let ghost s = tys_view(ts@);
                let mut ns: Vec<Ty> = Vec::new();
                let mut i: usize = 0;
                while i < ts.len()
                    invariant
                        i <= ts.len(),
                        ns@.len() == i as int,
                        forall|j: int| 0 <= j < i as int ==> ns@[j]@ == normalize_v(#[trigger] s[j]),
                    decreases ts@.len() - i as int,
                {
                    proof {
                        lemma_tys_view(ts@);
                        assert(s[i as int] == ty_view(ts@[i as int]));
                        assert(decreases_to!(s => s[i as int]));
                    }
                    let n = ts[i].normalize();
                    ns.push(n);
                    i = i + 1;
                }
                proof {
                    lemma_tys_view(ts@);
                    lemma_tys_view(ns@);
                    lemma_normalize_each(s);
                    assert(tys_view(ns@) =~= normalize_each_v(s));
                }
                let mut flat: Vec<Ty> = Vec::new();
                flatten_into(&ns, &mut flat);
                let u = dedup_tys(flat);
                union_of_fixed(u, self.no_generalize)
            },
            TyKind::Intersection(ts) => {
                proof {
                    lemma_tys_view(ts@);
                    assert(self@.kind->Intersection_0 == tys_view(ts@));
                    assert(decreases_to!(self@.kind => self@.kind->Intersection_0));
                }
                let ghost s = tys_view(ts@);
                let mut ns: Vec<Ty> = Vec::new();
                let mut i: usize = 0;
                while i < ts.len()
                    invariant
                        i <= ts.len(),
                        ns@.len() == i as int,
                        forall|j: int| 0 <= j < i as int ==> ns@[j]@ == normalize_v(#[trigger] s[j]),
                    decreases ts@.len() - i as int,
                {
                    proof {
                        lemma_tys_view(ts@);
                        assert(s[i as int] == ty_view(ts@[i as int]));
                        assert(decreases_to!(s => s[i as int]));
                    }
                    let n = ts[i].normalize();
                    ns.push(n);
                    i = i + 1;
                }
                proof {
                    lemma_tys_view(ts@);
                    lemma_tys_view(ns@);
                    lemma_normalize_each(s);
                    assert(tys_view(ns@) =~= normalize_each_v(s));
                }
                let mut flat: Vec<Ty> = Vec::new();
                flatten_inter_into(&ns, &mut flat);
                let u = dedup_tys(flat);
                inter_of_fixed(u, self.no_generalize)
            },
            _ => self.clone(),
        }
    }

    /// Remove the always-falsy members from this type.
    #[verifier::loop_isolation(false)]
    pub fn remove_falsy(&self) -> (r: Ty)
        ensures r@ == remove_falsy_v(self@),
    {
        match &self.kind {
            TyKind::Union(ts) => {
                proof {
                    lemma_tys_view(ts@);
                    assert(self@.kind->Union_0 == tys_view(ts@));
                }
                let mut flat: Vec<Ty> = Vec::new();
                flatten_into(ts, &mut flat);
                let ghost f = tys_view(flat@);
                let mut kept: Vec<Ty> = Vec::new();
                let mut i: usize = 0;
                while i < flat.len()
                    invariant
                        i <= flat.len(),
                        tys_view(kept@) == filter_falsy_v(f.take(i as int)),
                    decreases flat@.len() - i as int,
                {
                    proof {
                        lemma_tys_view(flat@);
                        assert(f[i as int] == ty_view(flat@[i as int]));
                        assert(f.take(i as int + 1) =~= f.take(i as int) + seq![f[i as int]]);
                        lemma_filter_falsy_append(f.take(i as int), seq![f[i as int]]);
                        assert(seq![f[i as int]].drop_first() =~= Seq::<TyV>::empty());
                        assert(filter_falsy_v(Seq::<TyV>::empty()) == Seq::<TyV>::empty());
                    }
                    if !is_falsy(&flat[i]) {
                        let ghost prev = kept@;
                        let c = flat[i].clone();
                        kept.push(c);
                        proof {
                            lemma_tys_view(prev);
                            lemma_tys_view(kept@);
                            assert(kept@ =~= prev.push(c));
                            assert(filter_falsy_v(seq![f[i as int]]) =~= seq![f[i as int]]);
                            assert(tys_view(kept@) =~= filter_falsy_v(f.take(i as int + 1)));
                        }
                    } else {
                        proof {
                            assert(filter_falsy_v(seq![f[i as int]]) =~= Seq::<TyV>::empty());
                            assert(tys_view(kept@) =~= filter_falsy_v(f.take(i as int + 1)));
                        }
                    }
                    i = i + 1;
                }
                proof {
                    lemma_tys_view(flat@);
                    assert(f.take(flat@.len() as int) =~= f);
                }
                let u = dedup_tys(kept);
                union_of_fixed(u, self.no_generalize)
            },
            _ => {
                if is_falsy(self) {
                    Ty::kw(Kwd::Never)
                } else {
                    self.clone()
                }
            },
        }
    }

    /// Widen unmarked literals to their base keywords.
    #[verifier::loop_isolation(false)]
    pub fn generalize_lit(&self) -> (r: Ty)
        ensures r@ == generalize_lit_v(self@),
        decreases self@,
    {
        if self.no_generalize {
            return self.clone();
        }
        proof {
            assert(decreases_to!(self@ => self@.kind));
        }
        match &self.kind {
            TyKind::Lit(LitVal::Num(_)) => Ty::kw(Kwd::Number),
            TyKind::Lit(LitVal::Str(_)) => Ty::kw(Kwd::Str),
            TyKind::Lit(LitVal::Bool(_)) => Ty::kw(Kwd::Boolean),
            TyKind::Lit(LitVal::BigInt(_)) => Ty::kw(Kwd::BigInt),
            TyKind::Union(ts) => {
                proof {
                    lemma_tys_view(ts@);
                    assert(self@.kind->Union_0 == tys_view(ts@));
                    assert(decreases_to!(self@.kind => self@.kind->Union_0));
                }
                let ghost s = tys_view(ts@);
                let mut ns: Vec<Ty> = Vec::new();
                let mut i: usize = 0;
                while i < ts.len()
                    invariant
                        i <= ts.len(),
                        ns@.len() == i as int,
                        forall|j: int| 0 <= j < i as int ==> ns@[j]@ == generalize_lit_v(#[trigger] s[j]),
                    decreases ts@.len() - i as int,
                {
                    proof {
                        lemma_tys_view(ts@);
                        assert(s[i as int] == ty_view(ts@[i as int]));
                        assert(decreases_to!(s => s[i as int]));
                    }
                    let n = ts[i].generalize_lit();
                    ns.push(n);
                    i = i + 1;
                }
                proof {
                    lemma_tys_view(ts@);
                    lemma_tys_view(ns@);
                    lemma_gen_each(s);
                    assert(tys_view(ns@) =~= gen_each_v(s));
                }
                Ty { no_generalize: false, kind: TyKind::Union(ns) }
            },
            TyKind::Intersection(ts) => {
                proof {
                    lemma_tys_view(ts@);
                    assert(self@.kind->Intersection_0 == tys_view(ts@));
                    assert(decreases_to!(self@.kind => self@.kind->Intersection_0));
                }
                let ghost s = tys_view(ts@);
                let mut ns: Vec<Ty> = Vec::new();
                let mut i: usize = 0;
                while i < ts.len()
                    invariant
                        i <= ts.len(),
                        ns@.len() == i as int,
                        forall|j: int| 0 <= j < i as int ==> ns@[j]@ == generalize_lit_v(#[trigger] s[j]),
                    decreases ts@.len() - i as int,
                {
                    proof {
                        lemma_tys_view(ts@);
                        assert(s[i as int] == ty_view(ts@[i as int]));
                        assert(decreases_to!(s => s[i as int]));
                    }
                    let n = ts[i].generalize_lit();
                    ns.push(n);
                    i = i + 1;
                }
                proof {
                    lemma_tys_view(ts@);
                    lemma_tys_view(ns@);
                    lemma_gen_each(s);
                    assert(tys_view(ns@) =~= gen_each_v(s));
                }
                Ty { no_generalize: false, kind: TyKind::Intersection(ns) }
            },
            _ => self.clone(),
        }
    }

    /// Widen literals at the top level and at the outermost union members,
    /// whatever their marks.
    #[verifier::loop_isolation(false)]
    pub fn force_generalize_top_level_literals(&self) -> (r: Ty)
        ensures r@ == force_gen_top_v(self@),
    {
        match &self.kind {
            TyKind::Union(ts) => {
                proof {
                    lemma_tys_view(ts@);
                    assert(self@.kind->Union_0 == tys_view(ts@));
                }
                let ghost s = tys_view(ts@);
                let mut ns: Vec<Ty> = Vec::new();
                let mut i: usize = 0;
                while i < ts.len()
                    invariant
                        i <= ts.len(),
                        ns@.len() == i as int,
                        forall|j: int| 0 <= j < i as int ==> ns@[j]@ == force_lit_v(#[trigger] s[j]),
                    decreases ts@.len() - i as int,
                {
                    proof {
                        lemma_tys_view(ts@);
                        assert(s[i as int] == ty_view(ts@[i as int]));
                    }
                    let m = &ts[i];
                    let n = match &m.kind {
                        TyKind::Lit(LitVal::Num(_)) => Ty { no_generalize: m.no_generalize, kind: TyKind::Keyword(Kwd::Number) },
                        TyKind::Lit(LitVal::Str(_)) => Ty { no_generalize: m.no_generalize, kind: TyKind::Keyword(Kwd::Str) },
                        TyKind::Lit(LitVal::Bool(_)) => Ty { no_generalize: m.no_generalize, kind: TyKind::Keyword(Kwd::Boolean) },
                        TyKind::Lit(LitVal::BigInt(_)) => Ty { no_generalize: m.no_generalize, kind: TyKind::Keyword(Kwd::BigInt) },
                        _ => m.clone(),
                    };
                    ns.push(n);
                    i = i + 1;
                }
                proof {
                    lemma_tys_view(ts@);
                    lemma_tys_view(ns@);
                    lemma_force_each(s);
                    assert(tys_view(ns@) =~= force_each_v(s));
                }
                Ty { no_generalize: self.no_generalize, kind: TyKind::Union(ns) }
            },
            TyKind::Lit(LitVal::Num(_)) => Ty { no_generalize: self.no_generalize, kind: TyKind::Keyword(Kwd::Number) },
            TyKind::Lit(LitVal::Str(_)) => Ty { no_generalize: self.no_generalize, kind: TyKind::Keyword(Kwd::Str) },
            TyKind::Lit(LitVal::Bool(_)) => Ty { no_generalize: self.no_generalize, kind: TyKind::Keyword(Kwd::Boolean) },
            TyKind::Lit(LitVal::BigInt(_)) => Ty { no_generalize: self.no_generalize, kind: TyKind::Keyword(Kwd::BigInt) },
            _ => self.clone(),
        }
    }
}

} // verus!
