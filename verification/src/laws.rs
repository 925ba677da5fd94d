//! The laws of the engine, proved once and for all: idempotence of the
//! canonicalization passes, the monoid of the branch-fact merge, and the
//! equations of the narrowing kernel.

use vstd::prelude::*;
use crate::facts::CondFacts;
use crate::facts::and_combine;
use crate::structural::lemma_ty_eq_refl;
use crate::structural::ty_eq;
use crate::ty::Kwd;
use crate::ty::Sym;
use crate::ty::TyKindV;
use crate::ty::TyV;
use crate::ty_ops::contains_eq;
use crate::ty_ops::dedup_v;
use crate::ty_ops::falsy_v;
use crate::ty_ops::filter_falsy_v;
use crate::ty_ops::flatten_inter_v;
use crate::ty_ops::flatten_v;
use crate::ty_ops::gen_each_v;
use crate::ty_ops::generalize_lit_v;
use crate::ty_ops::kw_v;
use crate::ty_ops::lemma_gen_each;
use crate::ty_ops::normalize_each_v;
use crate::ty_ops::normalize_v;
use crate::ty_ops::lemma_normalize_each;
use crate::ty_ops::remove_falsy_v;
use crate::ty_ops::union_v;
use crate::narrow::narrow_eq_v;
use crate::narrow::narrow_members_v;
use crate::narrow::narrow_inst_v;
use crate::narrow::narrow_inst_members_v;

verus! {

// ------------------------------------------------------------------
// Idempotence of `generalize_lit`.
// ------------------------------------------------------------------

/// Widening literals twice is widening them once.
pub proof fn lemma_generalize_lit_idempotent(t: TyV)
    ensures generalize_lit_v(generalize_lit_v(t)) == generalize_lit_v(t),
    decreases t,
{
    if !t.no_generalize {
        match t.kind {
            TyKindV::Union(ts) => {
                lemma_gen_each_idempotent(ts);
                assert(generalize_lit_v(generalize_lit_v(t)) =~= generalize_lit_v(t));
            },
            TyKindV::Intersection(ts) => {
                lemma_gen_each_idempotent(ts);
                assert(generalize_lit_v(generalize_lit_v(t)) =~= generalize_lit_v(t));
            },
            _ => {},
        }
    }
}

proof fn lemma_gen_each_idempotent(s: Seq<TyV>)
    ensures gen_each_v(gen_each_v(s)) == gen_each_v(s),
    decreases s,
{
    lemma_gen_each(s);
    lemma_gen_each(gen_each_v(s));
    assert forall|i: int| 0 <= i < s.len()
        implies #[trigger] gen_each_v(gen_each_v(s))[i] == gen_each_v(s)[i] by {
        lemma_generalize_lit_idempotent(s[i]);
    }
    assert(gen_each_v(gen_each_v(s)) =~= gen_each_v(s));
}

// ------------------------------------------------------------------
// Properties of flattening, filtering and de-duplication.
// ------------------------------------------------------------------

/// Every member of a flattened list is itself no union.
pub proof fn lemma_flatten_no_union(s: Seq<TyV>)
    ensures forall|i: int| 0 <= i < flatten_v(s).len() ==> !((#[trigger] flatten_v(s)[i]).kind is Union),
    decreases s,
{
    if s.len() > 0 {
        lemma_flatten_no_union(s.drop_first());
        match s[0].kind {
            TyKindV::Union(ms) => {
                lemma_flatten_no_union(ms);
            },
            _ => {},
        }
    }
}

/// Every member of an intersection-flattened list is no intersection.
pub proof fn lemma_flatten_inter_no_inter(s: Seq<TyV>)
    ensures forall|i: int| 0 <= i < flatten_inter_v(s).len()
        ==> !((#[trigger] flatten_inter_v(s)[i]).kind is Intersection),
    decreases s,
{
    if s.len() > 0 {
        lemma_flatten_inter_no_inter(s.drop_first());
        match s[0].kind {
            TyKindV::Intersection(ms) => {
                lemma_flatten_inter_no_inter(ms);
            },
            _ => {},
        }
    }
}

/// Every member of the filtered list is a member of the input.
pub proof fn lemma_filter_falsy_elements(s: Seq<TyV>)
    ensures
        forall|i: int| 0 <= i < filter_falsy_v(s).len()
            ==> exists|j: int| 0 <= j < s.len() && s[j] == #[trigger] filter_falsy_v(s)[i],
        forall|i: int| 0 <= i < filter_falsy_v(s).len() ==> !falsy_v(#[trigger] filter_falsy_v(s)[i]),
    decreases s,
{
    if s.len() > 0 {
        lemma_filter_falsy_elements(s.drop_first());
        assert forall|i: int| 0 <= i < filter_falsy_v(s).len()
            implies exists|j: int| 0 <= j < s.len() && s[j] == #[trigger] filter_falsy_v(s)[i] by {
            let f = filter_falsy_v(s);
            let head_len: int = if falsy_v(s[0]) { 0 } else { 1 };
            if i < head_len {
                assert(s[0] == f[i]);
            } else {
                let fi = filter_falsy_v(s.drop_first())[i - head_len];
                assert(f[i] == fi);
                let j = choose|j: int| 0 <= j < s.drop_first().len() && s.drop_first()[j] == fi;
                assert(s[j + 1] == fi);
            }
        }
    }
}

/// Every member of the de-duplicated list is a member of the input.
pub proof fn lemma_dedup_elements(s: Seq<TyV>)
    ensures forall|i: int| 0 <= i < dedup_v(s).len()
        ==> exists|j: int| 0 <= j < s.len() && s[j] == #[trigger] dedup_v(s)[i],
    decreases s,
{
    if s.len() > 0 {
        lemma_dedup_elements(s.drop_last());
        let d = dedup_v(s);
        let rest = dedup_v(s.drop_last());
        assert forall|i: int| 0 <= i < d.len()
            implies exists|j: int| 0 <= j < s.len() && s[j] == #[trigger] d[i] by {
            if i < rest.len() {
                assert(d[i] == rest[i]);
                let j = choose|j: int| 0 <= j < s.drop_last().len() && s.drop_last()[j] == rest[i];
                assert(s[j] == rest[i]);
            } else {
                assert(d[i] == s.last());
                assert(s[s.len() - 1] == s.last());
            }
        }
    }
}

/// No two members of the de-duplicated list are `type_eq`.
pub proof fn lemma_dedup_distinct(s: Seq<TyV>)
    ensures forall|i: int, j: int| 0 <= i < j < dedup_v(s).len()
        ==> !ty_eq(#[trigger] dedup_v(s)[i], #[trigger] dedup_v(s)[j]),
    decreases s,
{
    if s.len() > 0 {
        lemma_dedup_distinct(s.drop_last());
        lemma_dedup_elements(s.drop_last());
        let d = dedup_v(s);
        let rest = dedup_v(s.drop_last());
        if !contains_eq(s.drop_last(), s.last()) {
            assert forall|i: int, j: int| 0 <= i < j < d.len()
                implies !ty_eq(#[trigger] d[i], #[trigger] d[j]) by {
                if j < rest.len() {
                    assert(d[i] == rest[i]);
                    assert(d[j] == rest[j]);
                } else {
                    assert(d[j] == s.last());
                    assert(d[i] == rest[i]);
                    let m = choose|m: int| 0 <= m < s.drop_last().len() && s.drop_last()[m] == rest[i];
                    assert(!ty_eq(s.drop_last()[m], s.last()));
                }
            }
        }
    }
}

/// Flattening a list with no union members leaves it as it stands.
pub proof fn lemma_flatten_identity(s: Seq<TyV>)
    requires forall|i: int| 0 <= i < s.len() ==> !((#[trigger] s[i]).kind is Union),
    ensures flatten_v(s) == s,
    decreases s,
{
    if s.len() > 0 {
        lemma_flatten_identity(s.drop_first());
        assert(flatten_v(s) =~= s);
    } else {
        assert(flatten_v(s) =~= s);
    }
}

/// Intersection-flattening a list with no intersection members leaves it.
pub proof fn lemma_flatten_inter_identity(s: Seq<TyV>)
    requires forall|i: int| 0 <= i < s.len() ==> !((#[trigger] s[i]).kind is Intersection),
    ensures flatten_inter_v(s) == s,
    decreases s,
{
    if s.len() > 0 {
        lemma_flatten_inter_identity(s.drop_first());
        assert(flatten_inter_v(s) =~= s);
    } else {
        assert(flatten_inter_v(s) =~= s);
    }
}

/// Filtering a list with no falsy members leaves it as it stands.
pub proof fn lemma_filter_falsy_identity(s: Seq<TyV>)
    requires forall|i: int| 0 <= i < s.len() ==> !falsy_v(#[trigger] s[i]),
    ensures filter_falsy_v(s) == s,
    decreases s,
{
    if s.len() > 0 {
        lemma_filter_falsy_identity(s.drop_first());
        assert(filter_falsy_v(s) =~= s);
    } else {
        assert(filter_falsy_v(s) =~= s);
    }
}

/// De-duplicating a pairwise distinct list leaves it as it stands.
pub proof fn lemma_dedup_identity(s: Seq<TyV>)
    requires forall|i: int, j: int| 0 <= i < j < s.len() ==> !ty_eq(#[trigger] s[i], #[trigger] s[j]),
    ensures dedup_v(s) == s,
    decreases s,
{
    if s.len() > 0 {
        assert forall|i: int, j: int| 0 <= i < j < s.drop_last().len()
            implies !ty_eq(#[trigger] s.drop_last()[i], #[trigger] s.drop_last()[j]) by {
            assert(s.drop_last()[i] == s[i]);
            assert(s.drop_last()[j] == s[j]);
        }
        lemma_dedup_identity(s.drop_last());
        assert(!contains_eq(s.drop_last(), s.last())) by {
            if contains_eq(s.drop_last(), s.last()) {
                let i = choose|i: int| 0 <= i < s.drop_last().len()
                    && ty_eq(#[trigger] s.drop_last()[i], s.last());
                assert(s[i] == s.drop_last()[i]);
                assert(!ty_eq(s[i], s[s.len() - 1]));
            }
        }
        assert(dedup_v(s) =~= s);
    } else {
        assert(dedup_v(s) =~= s);
    }
}

// ------------------------------------------------------------------
// Idempotence of `remove_falsy`.
// ------------------------------------------------------------------

/// Removing the falsy members twice is removing them once.
pub proof fn lemma_remove_falsy_idempotent(t: TyV)
    ensures remove_falsy_v(remove_falsy_v(t)) == remove_falsy_v(t),
{
    match t.kind {
        TyKindV::Union(ts) => {
            let u = dedup_v(filter_falsy_v(flatten_v(ts)));
            lemma_flatten_no_union(ts);
            lemma_filter_falsy_elements(flatten_v(ts));
            lemma_dedup_elements(filter_falsy_v(flatten_v(ts)));
            lemma_dedup_distinct(filter_falsy_v(flatten_v(ts)));
            assert forall|i: int| 0 <= i < u.len() implies !((#[trigger] u[i]).kind is Union)
                && !falsy_v(u[i]) by {
                let f = filter_falsy_v(flatten_v(ts));
                let j = choose|j: int| 0 <= j < f.len() && f[j] == u[i];
                let m = choose|m: int| 0 <= m < flatten_v(ts).len() && flatten_v(ts)[m] == f[j];
            }
            let r = remove_falsy_v(t);
            if u.len() == 0 {
                assert(r == kw_v(Kwd::Never));
            } else if u.len() == 1 {
                assert(r == u[0]);
            } else {
                lemma_flatten_identity(u);
                lemma_filter_falsy_identity(u);
                lemma_dedup_identity(u);
                assert(remove_falsy_v(r) =~= r);
            }
        },
        _ => {
            if falsy_v(t) {
                assert(remove_falsy_v(remove_falsy_v(t)) == remove_falsy_v(t));
            }
        },
    }
}

// ------------------------------------------------------------------
// Idempotence of `normalize`.
// ------------------------------------------------------------------

/// A type in normal form: unions and intersections have at least two
/// members, no member of their own kind, normal members, and no two
/// members `type_eq`.
pub open spec fn is_normal_v(t: TyV) -> bool
    decreases t,
{
    match t.kind {
        TyKindV::Union(ts) => {
            &&& ts.len() >= 2
            &&& forall|i: int| 0 <= i < ts.len()
                ==> !((#[trigger] ts[i]).kind is Union) && is_normal_v(ts[i])
            &&& forall|i: int, j: int| 0 <= i < j < ts.len() ==> !ty_eq(#[trigger] ts[i], #[trigger] ts[j])
        },
        TyKindV::Intersection(ts) => {
            &&& ts.len() >= 2
            &&& forall|i: int| 0 <= i < ts.len()
                ==> !((#[trigger] ts[i]).kind is Intersection) && is_normal_v(ts[i])
            &&& forall|i: int, j: int| 0 <= i < j < ts.len() ==> !ty_eq(#[trigger] ts[i], #[trigger] ts[j])
        },
        _ => true,
    }
}

/// Flattening a list of normal members yields normal, non-union members.
proof fn lemma_flatten_normal(s: Seq<TyV>)
    requires forall|i: int| 0 <= i < s.len() ==> is_normal_v(#[trigger] s[i]),
    ensures forall|i: int| 0 <= i < flatten_v(s).len()
        ==> is_normal_v(#[trigger] flatten_v(s)[i]) && !(flatten_v(s)[i].kind is Union),
    decreases s,
{
    if s.len() > 0 {
        assert forall|i: int| 0 <= i < s.drop_first().len()
            implies is_normal_v(#[trigger] s.drop_first()[i]) by {
            assert(s.drop_first()[i] == s[i + 1]);
        }
        lemma_flatten_normal(s.drop_first());
        match s[0].kind {
            TyKindV::Union(ms) => {
                assert(is_normal_v(s[0]));
                lemma_flatten_normal(ms);
            },
            _ => {},
        }
    }
}

/// Intersection-flattening a list of normal members yields normal,
/// non-intersection members.
proof fn lemma_flatten_inter_normal(s: Seq<TyV>)
    requires forall|i: int| 0 <= i < s.len() ==> is_normal_v(#[trigger] s[i]),
    ensures forall|i: int| 0 <= i < flatten_inter_v(s).len()
        ==> is_normal_v(#[trigger] flatten_inter_v(s)[i]) && !(flatten_inter_v(s)[i].kind is Intersection),
    decreases s,
{
    if s.len() > 0 {
        assert forall|i: int| 0 <= i < s.drop_first().len()
            implies is_normal_v(#[trigger] s.drop_first()[i]) by {
            assert(s.drop_first()[i] == s[i + 1]);
        }
        lemma_flatten_inter_normal(s.drop_first());
        match s[0].kind {
            TyKindV::Intersection(ms) => {
                assert(is_normal_v(s[0]));
                lemma_flatten_inter_normal(ms);
            },
            _ => {},
        }
    }
}

/// Normalization yields a normal form.
pub proof fn lemma_normalize_normal(t: TyV)
    ensures is_normal_v(normalize_v(t)),
    decreases t,
{
    match t.kind {
        TyKindV::Union(ts) => {
            lemma_normalize_each(ts);
            assert forall|i: int| 0 <= i < normalize_each_v(ts).len()
                implies is_normal_v(#[trigger] normalize_each_v(ts)[i]) by {
                lemma_normalize_normal(ts[i]);
            }
            let f = flatten_v(normalize_each_v(ts));
            lemma_flatten_normal(normalize_each_v(ts));
            let u = dedup_v(f);
            lemma_dedup_elements(f);
            lemma_dedup_distinct(f);
            assert forall|i: int| 0 <= i < u.len()
                implies is_normal_v(#[trigger] u[i]) && !(u[i].kind is Union) by {
                let j = choose|j: int| 0 <= j < f.len() && f[j] == u[i];
            }
            if u.len() >= 2 {
                assert(is_normal_v(normalize_v(t)));
            }
        },
        TyKindV::Intersection(ts) => {
            lemma_normalize_each(ts);
            assert forall|i: int| 0 <= i < normalize_each_v(ts).len()
                implies is_normal_v(#[trigger] normalize_each_v(ts)[i]) by {
                lemma_normalize_normal(ts[i]);
            }
            let f = flatten_inter_v(normalize_each_v(ts));
            lemma_flatten_inter_normal(normalize_each_v(ts));
            let u = dedup_v(f);
            lemma_dedup_elements(f);
            lemma_dedup_distinct(f);
            assert forall|i: int| 0 <= i < u.len()
                implies is_normal_v(#[trigger] u[i]) && !(u[i].kind is Intersection) by {
                let j = choose|j: int| 0 <= j < f.len() && f[j] == u[i];
            }
            if u.len() >= 2 {
                assert(is_normal_v(normalize_v(t)));
            }
        },
        _ => {},
    }
}

/// Normalization leaves a normal form as it stands.
pub proof fn lemma_normalize_of_normal(t: TyV)
    requires is_normal_v(t),
    ensures normalize_v(t) == t,
    decreases t,
{
    match t.kind {
        TyKindV::Union(ts) => {
            lemma_normalize_each(ts);
            assert forall|i: int| 0 <= i < ts.len()
                implies #[trigger] normalize_each_v(ts)[i] == ts[i] by {
                lemma_normalize_of_normal(ts[i]);
            }
            assert(normalize_each_v(ts) =~= ts);
            lemma_flatten_identity(ts);
            lemma_dedup_identity(ts);
            assert(normalize_v(t) =~= t);
        },
        TyKindV::Intersection(ts) => {
            lemma_normalize_each(ts);
            assert forall|i: int| 0 <= i < ts.len()
                implies #[trigger] normalize_each_v(ts)[i] == ts[i] by {
                lemma_normalize_of_normal(ts[i]);
            }
            assert(normalize_each_v(ts) =~= ts);
            lemma_flatten_inter_identity(ts);
            lemma_dedup_identity(ts);
            assert(normalize_v(t) =~= t);
        },
        _ => {},
    }
}

/// Normalizing twice is normalizing once.
pub proof fn lemma_normalize_idempotent(t: TyV)
    ensures normalize_v(normalize_v(t)) == normalize_v(t),
{
    lemma_normalize_normal(t);
    lemma_normalize_of_normal(normalize_v(t));
}

// ------------------------------------------------------------------
// The fact-merge monoid.
// ------------------------------------------------------------------

/// A missing side gives way in the AND-merge of fact sets.
pub proof fn lemma_fact_merge_identity(a: Option<u32>)
    ensures
        and_combine(a, None) == a,
        and_combine(None, a) == a,
{
}

/// The AND-merge of fact sets is associative.
pub proof fn lemma_fact_merge_assoc(a: Option<u32>, b: Option<u32>, c: Option<u32>)
    ensures and_combine(and_combine(a, b), c) == and_combine(a, and_combine(b, c)),
{
    match (a, b, c) {
        (Some(x), Some(y), Some(z)) => {
            assert((x & y) & z == x & (y & z)) by (bit_vector);
        },
        _ => {},
    }
}

/// The append-merge of excludes lists is associative.
pub proof fn lemma_exclude_merge_assoc(a: Seq<TyV>, b: Seq<TyV>, c: Seq<TyV>)
    ensures (a + b) + c == a + (b + c),
{
    assert((a + b) + c =~= a + (b + c));
}

/// Merging the empty branch facts changes no lookup: together with the
/// contract of `CondFacts::add`, the empty facts are the identity of the
/// merge.
pub proof fn lemma_cond_facts_add_empty(a: CondFacts, b: CondFacts)
    requires b.is_empty(),
    ensures
        forall|k: Seq<Sym>| and_combine(#[trigger] a.facts.spec_get(k), b.facts.spec_get(k))
            == a.facts.spec_get(k),
        forall|k: Seq<Sym>| (if b.vars.spec_get(k) is Some { b.vars.spec_get(k) } else {
            #[trigger] a.vars.spec_get(k)
        }) == a.vars.spec_get(k),
        forall|k: Seq<Sym>| (match (#[trigger] a.excludes.spec_get(k), b.excludes.spec_get(k)) {
            (Some(x), Some(y)) => Some(x + y),
            (Some(x), None) => Some(x),
            (None, Some(y)) => Some(y),
            (None, None) => None::<Seq<TyV>>,
        }) == a.excludes.spec_get(k),
{
}

// ------------------------------------------------------------------
// The narrowing equations.
// ------------------------------------------------------------------

/// Narrowing a type against itself leaves it as it stands.
pub proof fn lemma_narrow_eq_refl(t: TyV)
    ensures narrow_eq_v(t, t) == t,
{
    lemma_ty_eq_refl(t);
}

/// Narrowing a union under equality is the fixed union of the narrowed
/// members, the `never` members dropped — the memberwise equation, for
/// operands that are not already equal.
pub proof fn lemma_narrow_eq_union(orig: TyV, eq: TyV)
    requires
        !ty_eq(orig, eq),
        !ty_eq(normalize_v(orig), normalize_v(eq)),
        normalize_v(orig).kind is Union,
    ensures narrow_eq_v(orig, eq)
        == union_v(narrow_members_v(normalize_v(orig).kind->Union_0, eq, normalize_v(eq))),
{
}

/// Narrowing a union under `instanceof` is the fixed union of the narrowed
/// members, the `never` members dropped — the memberwise equation.
pub proof fn lemma_narrow_instanceof_union(env: crate::env::Env, ty: TyV, no: TyV, span: crate::ast::Span, fuel: nat)
    requires
        no.kind is Union,
    ensures narrow_inst_v(env, ty, no, span, fuel)
        == match narrow_inst_members_v(env, ty, no.kind->Union_0, span, fuel) {
            Ok(kept) => Ok::<TyV, crate::diag::Diag>(union_v(kept)),
            Err(d) => Err::<TyV, crate::diag::Diag>(d),
        },
{
}

} // verus!
