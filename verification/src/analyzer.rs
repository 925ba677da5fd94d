//! The analyzer and the binary-expression dispatcher: evaluate the two
//! operands with the right seeds, merge the fact stores across the
//! short-circuiting operators, run the operator-specific narrowing, and
//! apply the operator's typing rule.
//!
//! The whole dispatcher is specified functionally: `validate_bin_v` is the
//! ghost dispatcher, composed of the rule and narrowing specs, and
//! `validate_bin` is proved equal to it — result, fact deltas and
//! diagnostic sequence. Determinism of the engine is immediate from that
//! shape: the ghost dispatcher is a function of the environment, the
//! context, the facts and the expression.

use vstd::prelude::*;
use crate::ast::BinExpr;
use crate::ast::BinOp;
use crate::ast::Expr;
use crate::ast::ExprKind;
use crate::ast::Lit;
use crate::ast::Span;
use crate::ast::UnaryOp;
use crate::ast::extract_name_for_assignment;
use crate::ast::extract_name_v;
use crate::diag::Diag;
use crate::diag::Error;
use crate::diag::ErrorV;
use crate::diag::collect_error;
use crate::diag::push_all;
use crate::env::Env;
use crate::env::access_property;
use crate::env::access_property_v;
use crate::env::chase_ref;
use crate::env::chase_ref_v;
use crate::env::expand_fully;
use crate::env::expand_fully_v;
use crate::facts::CondFacts;
use crate::facts::CondFactsV;
use crate::facts::FactMap;
use crate::facts::Facts;
use crate::facts::FactsV;
use crate::facts::Name;
use crate::facts::FACT_FALSY;
use crate::facts::FACT_TRUTHY;
use crate::facts::cf_add_v;
use crate::facts::cf_empty_v;
use crate::facts::emap_got;
use crate::facts::facts_empty_v;
use crate::facts::fmap_and;
use crate::facts::fmap_and_present;
use crate::facts::lemma_cf_add_bridge;
use crate::facts::lemma_cf_empty_bridge;
use crate::facts::lemma_cf_same_bridge;
use crate::facts::lemma_em_push_bridge;
use crate::facts::lemma_fm_merge_and_bridge;
use crate::facts::lemma_fm_merge_and_present_bridge;
use crate::facts::lemma_fm_set_bridge;
use crate::facts::lemma_vm_set_bridge;
use crate::facts::typeof_eq;
use crate::facts::typeof_eq_v;
use crate::facts::typeof_neq;
use crate::facts::typeof_neq_v;
use crate::narrow::calc_eq_facts_v;
use crate::narrow::calc_type_facts_for_equality;
use crate::narrow::filter_types_with_property;
use crate::narrow::filter_types_with_property_v;
use crate::narrow::narrow_inst_v;
use crate::narrow::narrow_with_instanceof;
use crate::ops::check_for_mixed_nullish_coalescing;
use crate::ops::is_valid_for_switch_case;
use crate::ops::is_valid_lhs_of_instanceof;
use crate::ops::logical_result;
use crate::ops::logical_result_v;
use crate::ops::mixed_nullish_v;
use crate::ops::nullish_result;
use crate::ops::nullish_result_v;
use crate::ops::plus_result;
use crate::ops::plus_result_v;
use crate::ops::rhs_of_instanceof_v;
use crate::ops::valid_for_switch_case_v;
use crate::ops::valid_lhs_of_instanceof_v;
use crate::ops::validate_bin_inner;
use crate::ops::validate_bin_inner_v;
use crate::ops::validate_rel_cmp_v;
use crate::ops::validate_rhs_of_instanceof;
use crate::ops::validate_relative_comparison_operands;
use crate::sym::SYM_FUNCTION_CLASS;
use crate::sym::SYM_OBJECT_CLASS;
use crate::sym::SYM_UNDEFINED;
use crate::ty::Kwd;
use crate::ty::LitVal;
use crate::ty::Sym;
use crate::ty::Ty;
use crate::ty::TyV;
use crate::ty::TyKindV;
use crate::ty_ops::intersection_v;
use crate::ty_ops::is_kwd_v;
use crate::ty_ops::kw_v;
use crate::ty_ops::mk_v;
use crate::ty_ops::normalize_v;
use crate::ty_ops::remove_falsy_v;

verus! {

/// The context flags the engine reads.
#[derive(Clone, Copy, PartialEq, Eq, Structural, Debug)]
pub struct Ctx {
    /// We are inside the condition of a conditional.
    pub in_cond_of_cond_expr: bool,
    /// We are inside the test of a switch case.
    pub in_switch_case_test: bool,
    /// A bare identifier access should record truthiness facts.
    pub should_store_truthy_for_access: bool,
    /// Literal widening is allowed here.
    pub can_generalize_literals: bool,
}

impl Ctx {
    /// The default flags: not inside any condition, widening allowed.
    pub fn new() -> (r: Ctx)
        ensures
            !r.in_cond_of_cond_expr,
            !r.in_switch_case_test,
            !r.should_store_truthy_for_access,
            r.can_generalize_literals,
    {
        Ctx {
            in_cond_of_cond_expr: false,
            in_switch_case_test: false,
            should_store_truthy_for_access: false,
            can_generalize_literals: true,
        }
    }
}

/// The analyzer: the declaration environment, the context flags, the
/// current flow facts, and the diagnostic storage.
pub struct Analyzer {
    pub env: Env,
    pub ctx: Ctx,
    pub cur_facts: Facts,
    pub diags: Vec<Diag>,
}

// ------------------------------------------------------------------
// The ghost dispatcher.
// ------------------------------------------------------------------

/// What evaluating an expression leaves behind: the new facts, the appended
/// diagnostics, and the result.
#[verifier::ext_equal]
pub struct EvalOut {
    pub facts: FactsV,
    pub diags: Seq<Diag>,
    pub result: Result<TyV, ErrorV>,
}

/// The ghost mirror of an optional contextual type.
pub open spec fn ann_view(a: Option<&Ty>) -> Option<TyV> {
    match a {
        Some(t) => Some(t@),
        None => None,
    }
}

/// The reference-chasing budget: one more than the number of named type
/// definitions, enough for any acyclic chain.
pub open spec fn fuel_v(env: Env) -> nat {
    let n = env.types.entries@.len();
    if n < usize::MAX as nat {
        n + 1
    } else {
        n
    }
}

/// The `typeof x === "lit"` shape: one side is `typeof` of a named
/// expression, the other a string literal or a one-quasi template.
pub open spec fn typeof_pair_v(a: Expr, b: Expr) -> Option<(Seq<Sym>, Sym)> {
    let val: Option<Sym> = match b.kind {
        ExprKind::Lit(Lit::Str(s)) => Some(s),
        ExprKind::Tpl(qs) => if qs@.len() == 1 {
            Some(qs@[0])
        } else {
            None
        },
        _ => None,
    };
    match (a.kind, val) {
        (ExprKind::Unary(UnaryOp::Typeof, arg), Some(v)) => match extract_name_v(*arg) {
            Some(n) => Some((n, v)),
            None => None,
        },
        _ => None,
    }
}

/// Whether an expression is the identifier `undefined` or a `null`
/// literal: the sides the generic equality narrowing skips.
pub open spec fn undefined_or_null_lit_v(e: Expr) -> bool {
    match e.kind {
        ExprKind::Ident(s) => s == SYM_UNDEFINED,
        ExprKind::Lit(Lit::Null) => true,
        _ => false,
    }
}

/// The fact merge of §4.2's table: `&&` keeps the seed's facts ANDed into
/// the child's true branch and ANDs the saved false facts back, vacancy
/// keeping; `||` ANDs the left side's true facts into the child's where
/// present, dropping vacant keys, and folds the rest of the left side in;
/// every other operator discards the child's facts.
#[verifier::opaque]
pub open spec fn merge_v(op: BinOp, prev: FactsV, child: FactsV, tf_rhs: CondFactsV, add_false: CondFactsV, lhs: FactsV) -> FactsV {
    if op == BinOp::LogicalOr {
        let nt0 = CondFactsV {
            facts: fmap_and_present(child.true_facts.facts, lhs.true_facts.facts),
            ..child.true_facts
        };
        let nt = cf_add_v(
            nt0,
            CondFactsV {
                facts: Map::empty(),
                vars: lhs.true_facts.vars,
                excludes: lhs.true_facts.excludes,
            },
        );
        FactsV { true_facts: nt, false_facts: cf_add_v(prev.false_facts, lhs.false_facts) }
    } else if op == BinOp::LogicalAnd {
        let nt = cf_add_v(child.true_facts, tf_rhs);
        let ff0 = CondFactsV {
            facts: fmap_and(prev.false_facts.facts, add_false.facts),
            ..prev.false_facts
        };
        let ff = cf_add_v(
            ff0,
            CondFactsV { facts: Map::empty(), vars: add_false.vars, excludes: add_false.excludes },
        );
        FactsV { true_facts: nt, false_facts: ff }
    } else {
        prev
    }
}

/// The equality-operator narrowing of §4.3.1–§4.3.3: the `typeof` facts on
/// both branches, the overlap diagnostic, the unknown-side deep fact, and
/// the generic equality narrowing with its excludes append and marked deep
/// fact. Yields the new facts, the diagnostics, and the early error of the
/// fact calculation if one arose.
pub open spec fn eq_section_v(env: Env, ctx: Ctx, f: FactsV, e: BinExpr, lt: TyV, rt: TyV, fuel: nat)
    -> (FactsV, Seq<Diag>, Option<Diag>) {
    let span = e.span;
    let op = e.op;
    let is_eq = op == BinOp::EqEqEq || op == BinOp::EqEq;
    let pair = match typeof_pair_v(*e.left, *e.right) {
        Some(p) => Some(p),
        None => typeof_pair_v(*e.right, *e.left),
    };
    let f1 = match pair {
        Some((n, v)) => {
            let tf = if is_eq { typeof_eq_v(v) } else { typeof_neq_v(v) };
            let ff = if is_eq { typeof_neq_v(v) } else { typeof_eq_v(v) };
            match (tf, ff) {
                (Some(t), Some(fb)) => FactsV {
                    true_facts: CondFactsV { facts: f.true_facts.facts.insert(n, t), ..f.true_facts },
                    false_facts: CondFactsV { facts: f.false_facts.facts.insert(n, fb), ..f.false_facts },
                },
                _ => f,
            }
        },
        None => f,
    };
    let d1: Seq<Diag> = if !valid_for_switch_case_v(lt, rt, ctx.in_switch_case_test) {
        if ctx.in_switch_case_test {
            seq![Diag::SwitchCaseTestNotCompatible { span }]
        } else {
            seq![Diag::NoOverlap { span }]
        }
    } else {
        Seq::empty()
    };
    let unk: Option<(Option<Seq<Sym>>, TyV)> = if is_kwd_v(normalize_v(lt), Kwd::Unknown) {
        Some((extract_name_v(*e.left), rt))
    } else if is_kwd_v(normalize_v(rt), Kwd::Unknown) {
        Some((extract_name_v(*e.right), lt))
    } else {
        None
    };
    let f2 = match unk {
        Some((Some(n), c)) => if is_eq {
            FactsV {
                true_facts: CondFactsV { vars: f1.true_facts.vars.insert(n, c), ..f1.true_facts },
                ..f1
            }
        } else {
            FactsV {
                true_facts: CondFactsV {
                    excludes: f1.true_facts.excludes.insert(
                        n,
                        emap_got(f1.true_facts.excludes, n).push(c),
                    ),
                    ..f1.true_facts
                },
                ..f1
            }
        },
        _ => f1,
    };
    if ctx.in_cond_of_cond_expr && (op == BinOp::EqEqEq || op == BinOp::NotEqEq) {
        let ns: Option<(Seq<Sym>, TyV)> = if !undefined_or_null_lit_v(*e.left)
            && extract_name_v(*e.left) is Some {
            Some((extract_name_v(*e.left)->0, rt))
        } else if !undefined_or_null_lit_v(*e.right) && extract_name_v(*e.right) is Some {
            Some((extract_name_v(*e.right)->0, lt))
        } else {
            None
        };
        match ns {
            Some((n, eqty)) => match calc_eq_facts_v(env, n, eqty, span, fuel) {
                Err(d) => (f2, d1, Some(d)),
                Ok(p) => {
                    let rn = p.0;
                    let rty = p.1;
                    let marked = TyV { no_generalize: true, ..rty };
                    if op == BinOp::EqEqEq {
                        let f3 = FactsV {
                            true_facts: CondFactsV {
                                vars: f2.true_facts.vars.insert(rn, marked),
                                ..f2.true_facts
                            },
                            false_facts: CondFactsV {
                                excludes: f2.false_facts.excludes.insert(
                                    rn,
                                    emap_got(f2.false_facts.excludes, rn).push(rty),
                                ),
                                ..f2.false_facts
                            },
                        };
                        (f3, d1, None)
                    } else {
                        let f3 = FactsV {
                            true_facts: CondFactsV {
                                excludes: f2.true_facts.excludes.insert(
                                    rn,
                                    emap_got(f2.true_facts.excludes, rn).push(rty),
                                ),
                                ..f2.true_facts
                            },
                            false_facts: CondFactsV {
                                vars: f2.false_facts.vars.insert(rn, marked),
                                ..f2.false_facts
                            },
                        };
                        (f3, d1, None)
                    }
                },
            },
            None => (f2, d1, None),
        }
    } else {
        (f2, d1, None)
    }
}

/// The `instanceof` narrowing of §4.3.4: validate the right operand,
/// narrow the subject, and install the replacement type on the true branch
/// with the excludes append on the false branch — or the intersection for
/// a type-parameter subject.
pub open spec fn inst_section_v(env: Env, ctx: Ctx, f: FactsV, e: BinExpr, rt: TyV, fuel: nat)
    -> (FactsV, Seq<Diag>, Option<Diag>) {
    let span = e.span;
    match e.left.kind {
        ExprKind::Ident(i) => match env.spec_type_of_var(i) {
            None => (f, Seq::empty(), Some(Diag::NoSuchVar { span, sym: i })),
            Some(orig) => {
                let p = rhs_of_instanceof_v(rt, span);
                let cannot = is_kwd_v(orig, Kwd::Any) && (match e.right.kind {
                    ExprKind::Ident(s) => s == SYM_OBJECT_CLASS || s == SYM_FUNCTION_CLASS,
                    _ => false,
                });
                if ctx.in_cond_of_cond_expr && !cannot {
                    match narrow_inst_v(env, p.0, normalize_v(orig), span, fuel) {
                        Err(d) => (f, p.1, Some(d)),
                        Ok(nw) => if normalize_v(orig).kind is Param {
                            let inter = intersection_v(seq![orig, nw]);
                            (
                                FactsV {
                                    true_facts: CondFactsV {
                                        vars: f.true_facts.vars.insert(seq![i], inter),
                                        ..f.true_facts
                                    },
                                    ..f
                                },
                                p.1,
                                None,
                            )
                        } else {
                            (
                                FactsV {
                                    true_facts: CondFactsV {
                                        vars: f.true_facts.vars.insert(seq![i], nw),
                                        ..f.true_facts
                                    },
                                    false_facts: CondFactsV {
                                        excludes: f.false_facts.excludes.insert(
                                            seq![i],
                                            emap_got(f.false_facts.excludes, seq![i]).push(nw),
                                        ),
                                        ..f.false_facts
                                    },
                                },
                                p.1,
                                None,
                            )
                        },
                    }
                } else {
                    (f, p.1, None)
                }
            },
        },
        _ => (f, Seq::empty(), None),
    }
}

/// The `in` narrowing of §4.3.5: a constant-string key and a named object
/// install the property-filtered type as a deep fact on the true branch.
pub open spec fn in_section_v(f: FactsV, e: BinExpr, rt: TyV) -> FactsV {
    let prop: Option<Sym> = match e.left.kind {
        ExprKind::Lit(Lit::Str(s)) => Some(s),
        ExprKind::Tpl(qs) => if qs@.len() == 1 {
            Some(qs@[0])
        } else {
            None
        },
        _ => None,
    };
    match (prop, extract_name_v(*e.right)) {
        (Some(p), Some(n)) => FactsV {
            true_facts: CondFactsV {
                vars: f.true_facts.vars.insert(n, filter_types_with_property_v(rt, p)),
                ..f.true_facts
            },
            ..f
        },
        _ => f,
    }
}

/// The operator's typing rule of §4.4 with its own diagnostics: the exact
/// result, or the exact propagated error, for every operator.
pub open spec fn typing_v(env: Env, op: BinOp, lt: TyV, rt: TyV, ann_none: bool, right_is_ident: bool, can_gen_lits: bool, span: Span, fuel: nat)
    -> (Seq<Diag>, Result<TyV, Diag>) {
    if op == BinOp::Plus {
        (Seq::empty(), plus_result_v(lt, rt, span))
    } else if op.is_numeric() {
        if is_kwd_v(lt, Kwd::Unknown) || is_kwd_v(rt, Kwd::Unknown) {
            (Seq::empty(), Err(Diag::Unknown { span }))
        } else {
            (Seq::empty(), Ok(kw_v(Kwd::Number)))
        }
    } else if op.is_equality() {
        (Seq::empty(), Ok(kw_v(Kwd::Boolean)))
    } else if op == BinOp::InstanceOf {
        let d: Seq<Diag> = if !valid_lhs_of_instanceof_v(lt) {
            seq![Diag::InvalidLhsInInstanceOf { span }]
        } else {
            Seq::empty()
        };
        (d, Ok(kw_v(Kwd::Boolean)))
    } else if op.is_relational() {
        if is_kwd_v(lt, Kwd::Unknown) || is_kwd_v(rt, Kwd::Unknown) {
            (Seq::empty(), Err(Diag::Unknown { span }))
        } else {
            let dl: Seq<Diag> = if is_kwd_v(normalize_v(lt), Kwd::Null) {
                seq![Diag::ObjectIsPossiblyNull { span }]
            } else if is_kwd_v(normalize_v(lt), Kwd::Undefined) {
                seq![Diag::ObjectIsPossiblyUndefined { span }]
            } else {
                Seq::empty()
            };
            let dr: Seq<Diag> = if is_kwd_v(normalize_v(rt), Kwd::Null) {
                seq![Diag::ObjectIsPossiblyNull { span }]
            } else if is_kwd_v(normalize_v(rt), Kwd::Undefined) {
                seq![Diag::ObjectIsPossiblyUndefined { span }]
            } else {
                Seq::empty()
            };
            (dl + dr + validate_rel_cmp_v(env, span, op, lt, rt, fuel), Ok(kw_v(Kwd::Boolean)))
        }
    } else if op == BinOp::In {
        (Seq::empty(), Ok(kw_v(Kwd::Boolean)))
    } else if op == BinOp::LogicalOr || op == BinOp::LogicalAnd {
        (
            Seq::empty(),
            logical_result_v(op, lt, rt, ann_none && !right_is_ident, can_gen_lits, span),
        )
    } else {
        (Seq::empty(), Ok(nullish_result_v(lt, rt)))
    }
}

/// The ghost evaluator for an expression: literals and templates and
/// `typeof` have constant types; an identifier resolves through the
/// environment and, in a truthiness-recording condition, installs its
/// truthy and falsy facts; parentheses and assignments pass through; a
/// member access resolves structurally; a binary expression runs the ghost
/// dispatcher.
#[verifier::opaque]
pub open spec fn validate_expr_v(env: Env, ctx: Ctx, facts: FactsV, e: Expr, ann: Option<TyV>) -> EvalOut
    decreases e, 1nat,
{
    match e.kind {
        ExprKind::Lit(l) => EvalOut {
            facts,
            diags: Seq::empty(),
            result: Ok(match l {
                Lit::Str(s) => mk_v(TyKindV::Lit(LitVal::Str(s))),
                Lit::Num(n) => mk_v(TyKindV::Lit(LitVal::Num(n))),
                Lit::Bool(b) => mk_v(TyKindV::Lit(LitVal::Bool(b))),
                Lit::Null => kw_v(Kwd::Null),
                Lit::BigInt(n) => mk_v(TyKindV::Lit(LitVal::BigInt(n))),
            }),
        },
        ExprKind::Tpl(_) => EvalOut { facts, diags: Seq::empty(), result: Ok(kw_v(Kwd::Str)) },
        ExprKind::Ident(s) => match env.spec_type_of_var(s) {
            Some(t) => {
                let f2 = if ctx.in_cond_of_cond_expr && ctx.should_store_truthy_for_access {
                    FactsV {
                        true_facts: CondFactsV {
                            facts: facts.true_facts.facts.insert(seq![s], FACT_TRUTHY),
                            ..facts.true_facts
                        },
                        false_facts: CondFactsV {
                            facts: facts.false_facts.facts.insert(seq![s], FACT_FALSY),
                            ..facts.false_facts
                        },
                    }
                } else {
                    facts
                };
                EvalOut { facts: f2, diags: Seq::empty(), result: Ok(t) }
            },
            None => EvalOut {
                facts,
                diags: Seq::empty(),
                result: Err(ErrorV::One(Diag::NoSuchVar { span: e.span, sym: s })),
            },
        },
        ExprKind::Unary(UnaryOp::Typeof, _) => EvalOut {
            facts,
            diags: Seq::empty(),
            result: Ok(kw_v(Kwd::Str)),
        },
        ExprKind::Paren(inner) => validate_expr_v(env, ctx, facts, *inner, ann),
        ExprKind::Assign(_, right) => validate_expr_v(env, ctx, facts, *right, None),
        ExprKind::Bin(b) => validate_bin_v(env, ctx, facts, *b, ann),
        ExprKind::Member { obj, prop, computed } => {
            let o = validate_expr_v(env, ctx, facts, *obj, None);
            match o.result {
                Err(err) => o,
                Ok(ot) => {
                    let key: Option<Sym> = match prop.kind {
                        ExprKind::Ident(s) => if !computed {
                            Some(s)
                        } else {
                            None
                        },
                        ExprKind::Lit(Lit::Str(s)) => if computed {
                            Some(s)
                        } else {
                            None
                        },
                        _ => None,
                    };
                    match key {
                        None => EvalOut {
                            result: Err(ErrorV::One(Diag::PropertyNotFound { span: e.span })),
                            ..o
                        },
                        Some(k) => match chase_ref_v(env, ot, e.span, fuel_v(env)) {
                            Ok(ot2) => match access_property_v(ot2, k) {
                                Some(t) => EvalOut { result: Ok(t), ..o },
                                None => EvalOut {
                                    result: Err(ErrorV::One(Diag::PropertyNotFound { span: e.span })),
                                    ..o
                                },
                            },
                            Err(d) => EvalOut { result: Err(ErrorV::One(d)), ..o },
                        },
                    }
                },
            }
        },
    }
}

/// The ghost evaluator for one operand: evaluate, and unwrap a reference
/// type at the top.
#[verifier::opaque]
pub open spec fn eval_operand_v(env: Env, ctx: Ctx, facts: FactsV, e: Expr, ann: Option<TyV>, span: Span) -> EvalOut
    decreases e, 2nat,
{
    let o = validate_expr_v(env, ctx, facts, e, ann);
    match o.result {
        Ok(t) => if t.kind is Ref {
            match expand_fully_v(env, t, span, fuel_v(env)) {
                Ok(t2) => EvalOut { result: Ok(t2), ..o },
                Err(d) => EvalOut { result: Err(ErrorV::One(d)), ..o },
            }
        } else {
            o
        },
        Err(_) => o,
    }
}

/// The ghost preamble of the dispatcher: the mixed-nullish check, both
/// operand evaluations with their seeds and the child scope, the operand
/// validation diagnostics, and the fact merge — everything up to the point
/// where both operand types are required.
pub open spec fn bin_operands_v(env: Env, ctx: Ctx, facts: FactsV, e: BinExpr, ann: Option<TyV>)
    -> (FactsV, Seq<Diag>, Result<(TyV, TyV), ErrorV>)
    decreases e, 0nat,
{
    let span = e.span;
    let op = e.op;
    let fuel = fuel_v(env);
    let d0: Seq<Diag> = match mixed_nullish_v(e) {
        Some(d) => seq![d],
        None => Seq::empty(),
    };
    let ctx_l = Ctx {
        should_store_truthy_for_access: ctx.should_store_truthy_for_access && op == BinOp::LogicalAnd,
        ..ctx
    };
    let lhs_ann: Option<TyV> = if op == BinOp::NullishCoalescing || op == BinOp::LogicalOr {
        ann
    } else {
        None
    };
    let lo = eval_operand_v(env, ctx_l, facts, *e.left, lhs_ann, span);
    let lt_opt: Option<TyV> = match lo.result {
        Ok(t) => Some(t),
        Err(_) => None,
    };
    let errors1: Seq<Diag> = match lo.result {
        Ok(_) => Seq::empty(),
        Err(er) => er.diags(),
    };
    let tf_rhs: CondFactsV = if op == BinOp::LogicalAnd {
        lo.facts.true_facts
    } else if op == BinOp::LogicalOr {
        lo.facts.false_facts
    } else {
        cf_empty_v()
    };
    let add_false: CondFactsV = if op == BinOp::LogicalAnd {
        lo.facts.false_facts
    } else {
        cf_empty_v()
    };
    let lhs_facts: FactsV = if op == BinOp::LogicalOr {
        lo.facts
    } else {
        facts_empty_v()
    };
    let rhs_ann: Option<TyV> = if op == BinOp::NullishCoalescing || op == BinOp::LogicalAnd
        || op == BinOp::LogicalOr {
        match ann {
            Some(t) => Some(t),
            None => if op == BinOp::NullishCoalescing || op == BinOp::LogicalOr {
                match lt_opt {
                    Some(l) => Some(remove_falsy_v(l)),
                    None => None,
                }
            } else {
                lt_opt
            },
        }
    } else {
        None
    };
    let ctx_c = Ctx { should_store_truthy_for_access: false, ..ctx };
    let co = eval_operand_v(
        env,
        ctx_c,
        FactsV { true_facts: tf_rhs, false_facts: cf_empty_v() },
        *e.right,
        rhs_ann,
        span,
    );
    let rt_opt: Option<TyV> = match co.result {
        Ok(t) => Some(t),
        Err(_) => None,
    };
    let errors2: Seq<Diag> = match co.result {
        Ok(_) => Seq::empty(),
        Err(er) => er.diags(),
    };
    let d_inner = validate_bin_inner_v(env, span, op, lt_opt, rt_opt, fuel);
    let facts3 = merge_v(op, facts, co.facts, tf_rhs, add_false, lhs_facts);
    let diags_a = d0 + lo.diags + co.diags + d_inner;
    if lt_opt is None || rt_opt is None {
        (facts3, diags_a, Err(ErrorV::Errors(span, errors1 + errors2)))
    } else {
        (facts3, diags_a, Ok((lt_opt->0, rt_opt->0)))
    }
}

/// The ghost tail of the dispatcher: the operator-specific narrowing
/// sections and the typing rule, over operand types that are both present.
pub open spec fn bin_finish_v(env: Env, ctx: Ctx, f: FactsV, e: BinExpr, lt: TyV, rt: TyV, ann_none: bool)
    -> (FactsV, Seq<Diag>, Result<TyV, Diag>) {
    let fuel = fuel_v(env);
    let eqr: (FactsV, Seq<Diag>, Option<Diag>) = if e.op.is_equality() {
        eq_section_v(env, ctx, f, e, lt, rt, fuel)
    } else {
        (f, Seq::empty(), None)
    };
    if eqr.2 is Some {
        (eqr.0, eqr.1, Err(eqr.2->0))
    } else {
        let ir: (FactsV, Seq<Diag>, Option<Diag>) = if e.op == BinOp::InstanceOf {
            inst_section_v(env, ctx, eqr.0, e, rt, fuel)
        } else {
            (eqr.0, Seq::empty(), None)
        };
        if ir.2 is Some {
            (ir.0, eqr.1 + ir.1, Err(ir.2->0))
        } else {
            let f_in = if e.op == BinOp::In && ctx.in_cond_of_cond_expr {
                in_section_v(ir.0, e, rt)
            } else {
                ir.0
            };
            let tr = typing_v(
                env,
                e.op,
                lt,
                rt,
                ann_none,
                e.right.kind is Ident,
                ctx.can_generalize_literals,
                e.span,
                fuel,
            );
            (f_in, eqr.1 + ir.1 + tr.0, tr.1)
        }
    }
}

/// The ghost dispatcher: the preamble, then the narrowing and typing tail —
/// §4.2, §4.3 and §4.4 composed as one function of the analyzer state and
/// the expression.
pub open spec fn validate_bin_v(env: Env, ctx: Ctx, facts: FactsV, e: BinExpr, ann: Option<TyV>) -> EvalOut
    decreases e, 1nat,
{
    let p = bin_operands_v(env, ctx, facts, e, ann);
    match p.2 {
        Err(ev) => EvalOut { facts: p.0, diags: p.1, result: Err(ev) },
        Ok(ops) => {
            let fin = bin_finish_v(env, ctx, p.0, e, ops.0, ops.1, ann is None);
            EvalOut {
                facts: fin.0,
                diags: p.1 + fin.1,
                result: match fin.2 {
                    Ok(t) => Ok(t),
                    Err(d) => Err(ErrorV::One(d)),
                },
            }
        },
    }
}

/// Appending nothing changes nothing.
proof fn lemma_diags_add_empty(s: Seq<Diag>)
    ensures s + Seq::<Diag>::empty() == s,
{
    assert(s + Seq::<Diag>::empty() =~= s);
}

impl Analyzer {
    /// Well-formed: the environment's tables and the fact maps have unique
    /// keys.
    pub open spec fn wf(&self) -> bool {
        self.env.wf() && self.cur_facts.wf()
    }

    /// A fresh analyzer over an environment.
    pub fn new(env: Env) -> (r: Analyzer)
        requires env.wf(),
        ensures
            r.wf(),
            r.env == env,
            !r.ctx.in_cond_of_cond_expr,
            !r.ctx.in_switch_case_test,
            !r.ctx.should_store_truthy_for_access,
            r.ctx.can_generalize_literals,
            r.cur_facts.is_empty(),
            r.cur_facts@ == facts_empty_v(),
            r.diags@ == Seq::<Diag>::empty(),
    {
        let facts = Facts::empty();
        proof {
            lemma_cf_empty_bridge(facts.true_facts);
            lemma_cf_empty_bridge(facts.false_facts);
            assert(facts@ =~= facts_empty_v());
        }
        Analyzer { env, ctx: Ctx::new(), cur_facts: facts, diags: Vec::new() }
    }

    /// The reference-chasing budget.
    pub fn fuel(&self) -> (r: usize)
        ensures r as nat == fuel_v(self.env),
    {
        let n = self.env.types.entries.len();
        if n < usize::MAX {
            n + 1
        } else {
            n
        }
    }

    /// Record a deep fact: the variable named by the dotted name is
    /// wholesale replaced by `ty` on the chosen branch.
    pub fn add_deep_type_fact(&mut self, name: Name, ty: Ty, for_true: bool)
        requires old(self).wf(),
        ensures
            final(self).wf(),
            final(self).env == old(self).env,
            final(self).ctx == old(self).ctx,
            final(self).diags == old(self).diags,
            for_true ==> final(self).cur_facts@ == (FactsV {
                true_facts: CondFactsV {
                    vars: old(self).cur_facts@.true_facts.vars.insert(name@, ty@),
                    ..old(self).cur_facts@.true_facts
                },
                ..old(self).cur_facts@
            }),
            !for_true ==> final(self).cur_facts@ == (FactsV {
                false_facts: CondFactsV {
                    vars: old(self).cur_facts@.false_facts.vars.insert(name@, ty@),
                    ..old(self).cur_facts@.false_facts
                },
                ..old(self).cur_facts@
            }),
    {
        let ghost nv = name@;
        let ghost tv = ty@;
        if for_true {
            let ghost pre = self.cur_facts.true_facts.vars;
            self.cur_facts.true_facts.vars.set(name, ty);
            proof {
                lemma_vm_set_bridge(pre, self.cur_facts.true_facts.vars, nv, tv);
                assert(self.cur_facts@ =~= (FactsV {
                    true_facts: CondFactsV {
                        vars: old(self).cur_facts@.true_facts.vars.insert(nv, tv),
                        ..old(self).cur_facts@.true_facts
                    },
                    ..old(self).cur_facts@
                }));
            }
        } else {
            let ghost pre = self.cur_facts.false_facts.vars;
            self.cur_facts.false_facts.vars.set(name, ty);
            proof {
                lemma_vm_set_bridge(pre, self.cur_facts.false_facts.vars, nv, tv);
                assert(self.cur_facts@ =~= (FactsV {
                    false_facts: CondFactsV {
                        vars: old(self).cur_facts@.false_facts.vars.insert(nv, tv),
                        ..old(self).cur_facts@.false_facts
                    },
                    ..old(self).cur_facts@
                }));
            }
        }
    }

    /// Append one diagnostic to the storage.
    fn report(&mut self, d: Diag)
        ensures
            final(self).diags@ == old(self).diags@.push(d),
            final(self).env == old(self).env,
            final(self).ctx == old(self).ctx,
            final(self).cur_facts == old(self).cur_facts,
    {
        self.diags.push(d);
    }

    /// Append diagnostics to the storage, in order.
    fn report_all(&mut self, ds: &Vec<Diag>)
        ensures
            final(self).diags@ == old(self).diags@ + ds@,
            final(self).env == old(self).env,
            final(self).ctx == old(self).ctx,
            final(self).cur_facts == old(self).cur_facts,
    {
        push_all(&mut self.diags, ds);
    }

    /// The `typeof x === "lit"` shape.
    fn typeof_pair(a: &Expr, b: &Expr) -> (r: Option<(Name, Sym)>)
        ensures
            match r {
                Some(p) => typeof_pair_v(*a, *b) == Some((p.0@, p.1)) && p.0.wf(),
                None => typeof_pair_v(*a, *b) is None,
            },
    {
        let val: Option<Sym> = match &b.kind {
            ExprKind::Lit(Lit::Str(s)) => Some(*s),
            ExprKind::Tpl(qs) => if qs.len() == 1 {
                Some(qs[0])
            } else {
                None
            },
            _ => None,
        };
        match (&a.kind, val) {
            (ExprKind::Unary(UnaryOp::Typeof, arg), Some(v)) => {
                match extract_name_for_assignment(arg) {
                    Some(n) => Some((n, v)),
                    None => None,
                }
            },
            _ => None,
        }
    }

    /// Whether an expression is the identifier `undefined` or a `null`
    /// literal.
    fn is_undefined_or_null_lit(e: &Expr) -> (r: bool)
        ensures r == undefined_or_null_lit_v(*e),
    {
        match &e.kind {
            ExprKind::Ident(s) => *s == SYM_UNDEFINED,
            ExprKind::Lit(Lit::Null) => true,
            _ => false,
        }
    }

    /// Validate an expression and compute its static type. The whole
    /// behaviour is the ghost evaluator's: facts, diagnostics and result.
    pub fn validate_expr(&mut self, e: &Expr, type_ann: Option<&Ty>) -> (r: Result<Ty, Error>)
        requires old(self).wf(),
        ensures
            final(self).wf(),
            final(self).env == old(self).env,
            final(self).ctx == old(self).ctx,
            crate::diag::diags_extended(old(self).diags@, final(self).diags@),
            ({
                let o = validate_expr_v(old(self).env, old(self).ctx, old(self).cur_facts@, *e, ann_view(type_ann));
                &&& final(self).cur_facts@ == o.facts
                &&& final(self).diags@ == old(self).diags@ + o.diags
                &&& match (r, o.result) {
                    (Ok(t), Ok(tv)) => t@ == tv,
                    (Err(er), Err(ev)) => er@ == ev,
                    _ => false,
                }
            }),
        decreases *e, 1nat,
    {
        proof {
            reveal_with_fuel(validate_expr_v, 1);
            assert(decreases_to!(*e => e.kind));
            lemma_diags_add_empty(old(self).diags@);
        }
        match &e.kind {
            ExprKind::Lit(l) => match l {
                Lit::Str(s) => Ok(Ty::lit(LitVal::Str(*s))),
                Lit::Num(n) => Ok(Ty::lit(LitVal::Num(*n))),
                Lit::Bool(b) => Ok(Ty::lit(LitVal::Bool(*b))),
                Lit::Null => Ok(Ty::kw(Kwd::Null)),
                Lit::BigInt(n) => Ok(Ty::lit(LitVal::BigInt(*n))),
            },
            ExprKind::Tpl(_) => Ok(Ty::kw(Kwd::Str)),
            ExprKind::Ident(s) => {
                let t = match self.env.type_of_var(*s, e.span) {
                    Ok(t) => t,
                    Err(d) => {
                        return Err(Error::One(d));
                    },
                };
                if self.ctx.in_cond_of_cond_expr && self.ctx.should_store_truthy_for_access {
                    let n1 = Name::ident(*s);
                    let n2 = Name::ident(*s);
                    let ghost pre_t = self.cur_facts.true_facts.facts;
                    self.cur_facts.true_facts.facts.set(n1, FACT_TRUTHY);
                    proof {
                        lemma_fm_set_bridge(pre_t, self.cur_facts.true_facts.facts, seq![*s], FACT_TRUTHY);
                    }
                    let ghost pre_f = self.cur_facts.false_facts.facts;
                    self.cur_facts.false_facts.facts.set(n2, FACT_FALSY);
                    proof {
                        lemma_fm_set_bridge(pre_f, self.cur_facts.false_facts.facts, seq![*s], FACT_FALSY);
                        let o = validate_expr_v(old(self).env, old(self).ctx, old(self).cur_facts@, *e, ann_view(type_ann));
                        assert(self.cur_facts@ =~= o.facts);
                    }
                }
                Ok(t)
            },
            ExprKind::Unary(UnaryOp::Typeof, _) => Ok(Ty::kw(Kwd::Str)),
            ExprKind::Paren(inner) => {
                proof {
                    assert(decreases_to!(e.kind => e.kind->Paren_0));
                }
                self.validate_expr(inner, type_ann)
            },
            ExprKind::Assign(_, right) => {
                proof {
                    assert(decreases_to!(e.kind => e.kind->Assign_1));
                }
                self.validate_expr(right, None)
            },
            ExprKind::Bin(b) => {
                proof {
                    assert(decreases_to!(e.kind => e.kind->Bin_0));
                }
                self.validate_bin(b, type_ann)
            },
            ExprKind::Member { obj, prop, computed } => {
                proof {
                    assert(decreases_to!(e.kind => e.kind->Member_obj));
                }
                let ot = match self.validate_expr(obj, None) {
                    Ok(t) => t,
                    Err(err) => {
                        return Err(err);
                    },
                };
                let key: Sym = match &prop.kind {
                    ExprKind::Ident(s) => {
                        if !*computed {
                            *s
                        } else {
                            return Err(Error::One(Diag::PropertyNotFound { span: e.span }));
                        }
                    },
                    ExprKind::Lit(Lit::Str(s)) => {
                        if *computed {
                            *s
                        } else {
                            return Err(Error::One(Diag::PropertyNotFound { span: e.span }));
                        }
                    },
                    _ => {
                        return Err(Error::One(Diag::PropertyNotFound { span: e.span }));
                    },
                };
                let fuel = self.fuel();
                let ot2 = match chase_ref(&self.env, &ot, e.span, fuel) {
                    Ok(t) => t,
                    Err(d) => {
                        return Err(Error::One(d));
                    },
                };
                match access_property(&ot2, key) {
                    Some(t) => Ok(t),
                    None => Err(Error::One(Diag::PropertyNotFound { span: e.span })),
                }
            },
        }
    }

    /// Validate one operand: evaluate it, and unwrap a reference type at
    /// the top.
    #[verifier::rlimit(100)]
    #[verifier::spinoff_prover]
    fn eval_operand(&mut self, e: &Expr, type_ann: Option<&Ty>, span: Span) -> (r: Result<Ty, Error>)
        requires old(self).wf(),
        ensures
            final(self).wf(),
            final(self).env == old(self).env,
            final(self).ctx == old(self).ctx,
            crate::diag::diags_extended(old(self).diags@, final(self).diags@),
            ({
                let o = eval_operand_v(old(self).env, old(self).ctx, old(self).cur_facts@, *e, ann_view(type_ann), span);
                &&& final(self).cur_facts@ == o.facts
                &&& final(self).diags@ == old(self).diags@ + o.diags
                &&& match (r, o.result) {
                    (Ok(t), Ok(tv)) => t@ == tv,
                    (Err(er), Err(ev)) => er@ == ev,
                    _ => false,
                }
            }),
        decreases *e, 2nat,
    {
        proof {
            reveal_with_fuel(eval_operand_v, 1);
        }
        let t = match self.validate_expr(e, type_ann) {
            Ok(t) => t,
            Err(err) => {
                return Err(err);
            },
        };
        if t.is_ref_type() {
            let fuel = self.fuel();
            match expand_fully(&self.env, &t, span, fuel) {
                Ok(t2) => Ok(t2),
                Err(d) => Err(Error::One(d)),
            }
        } else {
            Ok(t)
        }
    }

    /// Evaluate an expression in a child flow scope seeded with `seed` as
    /// its true facts and nothing as its false facts. The child's resulting
    /// facts are handed back to the caller; the analyzer's own facts are
    /// exactly what they were before the call — facts never escape a child
    /// scope unless the caller merges what it is handed. The child's run is
    /// the ghost evaluator's, under a context that stores no truthiness.
    pub fn with_child_flow(&mut self, e: &Expr, seed: CondFacts, type_ann: Option<&Ty>, span: Span)
        -> (r: (Result<Ty, Error>, Facts))
        requires old(self).wf(), seed.wf(),
        ensures
            final(self).wf(),
            final(self).env == old(self).env,
            final(self).ctx == old(self).ctx,
            final(self).cur_facts == old(self).cur_facts,
            crate::diag::diags_extended(old(self).diags@, final(self).diags@),
            r.1.wf(),
            ({
                let o = eval_operand_v(
                    old(self).env,
                    Ctx { should_store_truthy_for_access: false, ..old(self).ctx },
                    FactsV { true_facts: seed@, false_facts: cf_empty_v() },
                    *e,
                    ann_view(type_ann),
                    span,
                );
                &&& r.1@ == o.facts
                &&& final(self).diags@ == old(self).diags@ + o.diags
                &&& match (r.0, o.result) {
                    (Ok(t), Ok(tv)) => t@ == tv,
                    (Err(er), Err(ev)) => er@ == ev,
                    _ => false,
                }
            }),
        decreases *e, 3nat,
    {
        let ghost seedv = seed@;
        let saved = self.cur_facts.take();
        let empty_false = CondFacts::empty();
        proof {
            lemma_cf_empty_bridge(empty_false);
        }
        self.cur_facts = Facts { true_facts: seed, false_facts: empty_false };
        proof {
            assert(self.cur_facts@ =~= (FactsV { true_facts: seedv, false_facts: cf_empty_v() }));
        }
        let saved_ctx = self.ctx;
        self.ctx.should_store_truthy_for_access = false;
        proof {
            assert(self.ctx == (Ctx { should_store_truthy_for_access: false, ..old(self).ctx }));
        }
        let res = self.eval_operand(e, type_ann, span);
        self.ctx = saved_ctx;
        let child = self.cur_facts.take();
        self.cur_facts = saved;
        (res, child)
    }

    /// Merge the child's facts back per the operator's row of §4.2.
    fn apply_merge(&mut self, op: BinOp, child_facts: Facts, true_facts_for_rhs: CondFacts, additional_false_facts: CondFacts, lhs_facts: Facts)
        requires
            old(self).wf(),
            child_facts.wf(),
            true_facts_for_rhs.wf(),
            additional_false_facts.wf(),
            lhs_facts.wf(),
        ensures
            final(self).wf(),
            final(self).env == old(self).env,
            final(self).ctx == old(self).ctx,
            final(self).diags == old(self).diags,
            final(self).cur_facts@ == merge_v(
                op,
                old(self).cur_facts@,
                child_facts@,
                true_facts_for_rhs@,
                additional_false_facts@,
                lhs_facts@,
            ),
    {
        proof {
            reveal(merge_v);
        }
        let ghost childv = child_facts@;
        let ghost tfv = true_facts_for_rhs@;
        let ghost afv = additional_false_facts@;
        let ghost lhsv = lhs_facts@;
        if matches!(op, BinOp::LogicalOr) {
            let Facts { true_facts: lhs_true, false_facts: lhs_false } = lhs_facts;
            let CondFacts { facts: lhs_true_facts, vars: lhs_true_vars, excludes: lhs_true_excludes } = lhs_true;
            let mut new_true = child_facts.true_facts;
            let ghost pre_nt = new_true;
            new_true.facts.merge_and_present(&lhs_true_facts);
            proof {
                lemma_fm_merge_and_present_bridge(pre_nt.facts, lhs_true_facts, new_true.facts);
            }
            let rest = CondFacts {
                facts: FactMap::empty(),
                vars: lhs_true_vars,
                excludes: lhs_true_excludes,
            };
            proof {
                crate::facts::lemma_fm_empty_bridge(rest.facts);
            }
            let ghost pre_add = new_true;
            new_true.add(&rest);
            proof {
                lemma_cf_add_bridge(pre_add, rest, new_true);
            }
            self.cur_facts.true_facts = new_true;
            let ghost pre_ff = self.cur_facts.false_facts;
            self.cur_facts.false_facts.add(&lhs_false);
            proof {
                lemma_cf_add_bridge(pre_ff, lhs_false, self.cur_facts.false_facts);
                assert(self.cur_facts@ =~= merge_v(op, old(self).cur_facts@, childv, tfv, afv, lhsv));
            }
        } else if matches!(op, BinOp::LogicalAnd) {
            let mut new_true = child_facts.true_facts;
            let ghost pre_add = new_true;
            new_true.add(&true_facts_for_rhs);
            proof {
                lemma_cf_add_bridge(pre_add, true_facts_for_rhs, new_true);
            }
            self.cur_facts.true_facts = new_true;
            let CondFacts { facts: af_facts, vars: af_vars, excludes: af_excludes } = additional_false_facts;
            let ghost pre_ff = self.cur_facts.false_facts.facts;
            self.cur_facts.false_facts.facts.merge_and(&af_facts);
            proof {
                lemma_fm_merge_and_bridge(pre_ff, af_facts, self.cur_facts.false_facts.facts);
            }
            let rest = CondFacts { facts: FactMap::empty(), vars: af_vars, excludes: af_excludes };
            proof {
                crate::facts::lemma_fm_empty_bridge(rest.facts);
            }
            let ghost pre_f2 = self.cur_facts.false_facts;
            self.cur_facts.false_facts.add(&rest);
            proof {
                lemma_cf_add_bridge(pre_f2, rest, self.cur_facts.false_facts);
                assert(self.cur_facts@ =~= merge_v(op, old(self).cur_facts@, childv, tfv, afv, lhsv));
            }
        }
    }
}


impl Analyzer {
    /// The equality-operator narrowing; yields the early error of the fact
    /// calculation where one arose.
    #[verifier::rlimit(100)]
    #[verifier::spinoff_prover]
    fn eq_section(&mut self, e: &BinExpr, lt: &Ty, rt: &Ty, fuel: usize) -> (r: Option<Diag>)
        requires old(self).wf(),
        ensures
            final(self).wf(),
            final(self).env == old(self).env,
            final(self).ctx == old(self).ctx,
            ({
                let sec = eq_section_v(old(self).env, old(self).ctx, old(self).cur_facts@, *e, lt@, rt@, fuel as nat);
                &&& final(self).cur_facts@ == sec.0
                &&& final(self).diags@ == old(self).diags@ + sec.1
                &&& r == sec.2
            }),
    {
        proof {
            lemma_diags_add_empty(old(self).diags@);
        }
        let span = e.span;
        let op = e.op;
        let is_eq = matches!(op, BinOp::EqEqEq | BinOp::EqEq);

        // `typeof x === "string"` facts, tried on both orientations.
        let pair = match Self::typeof_pair(&e.left, &e.right) {
            Some(p) => Some(p),
            None => Self::typeof_pair(&e.right, &e.left),
        };
        match pair {
            Some((name, v)) => {
                let tf = if is_eq { typeof_eq(v) } else { typeof_neq(v) };
                let ff = if is_eq { typeof_neq(v) } else { typeof_eq(v) };
                match (tf, ff) {
                    (Some(t), Some(f)) => {
                        let ghost nv = name@;
                        let name2 = name.clone();
                        let ghost pre_t = self.cur_facts.true_facts.facts;
                        self.cur_facts.true_facts.facts.set(name, t);
                        proof {
                            lemma_fm_set_bridge(pre_t, self.cur_facts.true_facts.facts, nv, t);
                        }
                        let ghost pre_f = self.cur_facts.false_facts.facts;
                        self.cur_facts.false_facts.facts.set(name2, f);
                        proof {
                            lemma_fm_set_bridge(pre_f, self.cur_facts.false_facts.facts, nv, f);
                        }
                    },
                    _ => {},
                }
            },
            None => {},
        }
        // Overlap of the compared types.
        if !is_valid_for_switch_case(lt, rt, self.ctx.in_switch_case_test) {
            if self.ctx.in_switch_case_test {
                self.report(Diag::SwitchCaseTestNotCompatible { span });
            } else {
                self.report(Diag::NoOverlap { span });
            }
        }

        // An `unknown` side narrows to the other side's concrete type.
        let lt_n = lt.normalize();
        let rt_n = rt.normalize();
        let unknown_side: Option<(Option<Name>, &Ty)> = if lt_n.is_kwd(Kwd::Unknown) {
            Some((extract_name_for_assignment(&e.left), rt))
        } else if rt_n.is_kwd(Kwd::Unknown) {
            Some((extract_name_for_assignment(&e.right), lt))
        } else {
            None
        };
        match unknown_side {
            Some((Some(name), concrete)) => {
                let c = concrete.clone();
                if is_eq {
                    self.add_deep_type_fact(name, c, true);
                } else {
                    let ghost nv = name@;
                    let ghost pre_e = self.cur_facts.true_facts.excludes;
                    let ghost cv = c@;
                    self.cur_facts.true_facts.excludes.push_to(&name, c);
                    proof {
                        lemma_em_push_bridge(pre_e, self.cur_facts.true_facts.excludes, nv, cv);
                    }
                }
            },
            _ => {},
        }

        // Generic equality narrowing inside a condition.
        if self.ctx.in_cond_of_cond_expr && matches!(op, BinOp::EqEqEq | BinOp::NotEqEq) {
            let name_side: Option<(Name, &Ty)> = if !Self::is_undefined_or_null_lit(&e.left) {
                match extract_name_for_assignment(&e.left) {
                    Some(n) => Some((n, rt)),
                    None => None,
                }
            } else {
                None
            };
            let name_side = match name_side {
                Some(p) => Some(p),
                None => {
                    if !Self::is_undefined_or_null_lit(&e.right) {
                        match extract_name_for_assignment(&e.right) {
                            Some(n) => Some((n, lt)),
                            None => None,
                        }
                    } else {
                        None
                    }
                },
            };
            match name_side {
                Some((name, eq_ty)) => {
                    let (refined_name, mut refined) =
                        match calc_type_facts_for_equality(&self.env, &name, eq_ty, span, fuel) {
                            Ok(p) => p,
                            Err(d) => {
                                return Some(d);
                            },
                        };
                    let ghost rnv = refined_name@;
                    let ghost rtyv = refined@;
                    if matches!(op, BinOp::EqEqEq) {
                        let excl = refined.clone();
                        let ghost pre_e = self.cur_facts.false_facts.excludes;
                        self.cur_facts.false_facts.excludes.push_to(&refined_name, excl);
                        proof {
                            lemma_em_push_bridge(pre_e, self.cur_facts.false_facts.excludes, rnv, rtyv);
                        }
                        refined.prevent_generalize();
                        self.add_deep_type_fact(refined_name, refined, true);
                    } else {
                        let excl = refined.clone();
                        let ghost pre_e = self.cur_facts.true_facts.excludes;
                        self.cur_facts.true_facts.excludes.push_to(&refined_name, excl);
                        proof {
                            lemma_em_push_bridge(pre_e, self.cur_facts.true_facts.excludes, rnv, rtyv);
                        }
                        refined.prevent_generalize();
                        self.add_deep_type_fact(refined_name, refined, false);
                    }
                },
                None => {},
            }
        }
        None
    }

    /// The `instanceof` narrowing; yields the early error where one arose.
    #[verifier::rlimit(100)]
    #[verifier::spinoff_prover]
    fn inst_section(&mut self, e: &BinExpr, rt: &Ty, fuel: usize) -> (r: Option<Diag>)
        requires old(self).wf(),
        ensures
            final(self).wf(),
            final(self).env == old(self).env,
            final(self).ctx == old(self).ctx,
            ({
                let sec = inst_section_v(old(self).env, old(self).ctx, old(self).cur_facts@, *e, rt@, fuel as nat);
                &&& final(self).cur_facts@ == sec.0
                &&& final(self).diags@ == old(self).diags@ + sec.1
                &&& r == sec.2
            }),
    {
        proof {
            lemma_diags_add_empty(old(self).diags@);
        }
        let span = e.span;
        match &e.left.kind {
            ExprKind::Ident(i) => {
                let orig_ty = match self.env.type_of_var(*i, span) {
                    Ok(t) => t,
                    Err(d) => {
                        return Some(d);
                    },
                };
                let (validated, ds) = validate_rhs_of_instanceof(rt, span);
                self.report_all(&ds);
                let cannot_narrow = orig_ty.is_any() && (match &e.right.kind {
                    ExprKind::Ident(s) => *s == SYM_OBJECT_CLASS || *s == SYM_FUNCTION_CLASS,
                    _ => false,
                });
                if self.ctx.in_cond_of_cond_expr && !cannot_narrow {
                    let narrowed =
                        match narrow_with_instanceof(&self.env, &validated, &orig_ty, span, fuel) {
                            Ok(t) => t,
                            Err(d) => {
                                return Some(d);
                            },
                        };
                    let orig_n = orig_ty.normalize();
                    if orig_n.is_type_param() {
                        let ghost ov = orig_ty@;
                        let ghost nwv = narrowed@;
                        let mut v: Vec<Ty> = Vec::new();
                        v.push(orig_ty);
                        v.push(narrowed);
                        proof {
                            crate::ty::lemma_tys_view(v@);
                            assert(crate::ty::tys_view(v@) =~= seq![ov, nwv]);
                        }
                        let inter = crate::ty_ops::intersection_from(v);
                        let ghost pre_v = self.cur_facts.true_facts.vars;
                        self.cur_facts.true_facts.vars.set(Name::ident(*i), inter);
                        proof {
                            lemma_vm_set_bridge(pre_v, self.cur_facts.true_facts.vars, seq![*i], intersection_v(seq![ov, nwv]));
                        }
                    } else {
                        let nm = Name::ident(*i);
                        let ghost nwv = narrowed@;
                        let nc = narrowed.clone();
                        let ghost pre_v = self.cur_facts.true_facts.vars;
                        self.cur_facts.true_facts.vars.set(Name::ident(*i), nc);
                        proof {
                            lemma_vm_set_bridge(pre_v, self.cur_facts.true_facts.vars, seq![*i], nwv);
                        }
                        let ghost pre_e = self.cur_facts.false_facts.excludes;
                        self.cur_facts.false_facts.excludes.push_to(&nm, narrowed);
                        proof {
                            lemma_em_push_bridge(pre_e, self.cur_facts.false_facts.excludes, seq![*i], nwv);
                        }
                    }
                }
                None
            },
            _ => None,
        }
    }

    /// The `in` narrowing: install the property-filtered deep fact.
    fn in_section(&mut self, e: &BinExpr, rt: &Ty)
        requires old(self).wf(),
        ensures
            final(self).wf(),
            final(self).env == old(self).env,
            final(self).ctx == old(self).ctx,
            final(self).diags == old(self).diags,
            final(self).cur_facts@ == in_section_v(old(self).cur_facts@, *e, rt@),
    {
        let prop: Option<Sym> = match &e.left.kind {
            ExprKind::Lit(Lit::Str(s)) => Some(*s),
            ExprKind::Tpl(qs) => if qs.len() == 1 {
                Some(qs[0])
            } else {
                None
            },
            _ => None,
        };
        let name = extract_name_for_assignment(&e.right);
        match (prop, name) {
            (Some(p), Some(n)) => {
                let new_ty = filter_types_with_property(rt, p);
                self.add_deep_type_fact(n, new_ty, true);
            },
            _ => {},
        }
    }

    /// The operator's typing rule with its own diagnostics.
    #[verifier::rlimit(100)]
    #[verifier::spinoff_prover]
    fn typing_tail(&mut self, e: &BinExpr, lt: &Ty, rt: &Ty, ann_none: bool, fuel: usize) -> (r: Result<Ty, Diag>)
        requires old(self).wf(),
        ensures
            final(self).wf(),
            final(self).env == old(self).env,
            final(self).ctx == old(self).ctx,
            final(self).cur_facts == old(self).cur_facts,
            ({
                let tr = typing_v(
                    old(self).env,
                    e.op,
                    lt@,
                    rt@,
                    ann_none,
                    e.right.kind is Ident,
                    old(self).ctx.can_generalize_literals,
                    e.span,
                    fuel as nat,
                );
                &&& final(self).diags@ == old(self).diags@ + tr.0
                &&& match (r, tr.1) {
                    (Ok(t), Ok(tv)) => t@ == tv,
                    (Err(d), Err(dv)) => d == dv,
                    _ => false,
                }
            }),
    {
        proof {
            lemma_diags_add_empty(old(self).diags@);
        }
        let span = e.span;
        let op = e.op;
        match op {
            BinOp::Plus => plus_result(lt, rt, span),
            BinOp::Mul | BinOp::Div | BinOp::Mod | BinOp::Minus | BinOp::LShift | BinOp::RShift
                | BinOp::ZeroFillRShift | BinOp::BitOr | BinOp::BitXor | BinOp::BitAnd | BinOp::Exp => {
                if lt.is_kwd(Kwd::Unknown) || rt.is_kwd(Kwd::Unknown) {
                    return Err(Diag::Unknown { span });
                }
                Ok(Ty::kw(Kwd::Number))
            },
            BinOp::EqEqEq | BinOp::NotEqEq | BinOp::EqEq | BinOp::NotEq => Ok(Ty::kw(Kwd::Boolean)),
            BinOp::InstanceOf => {
                if !is_valid_lhs_of_instanceof(lt) {
                    self.report(Diag::InvalidLhsInInstanceOf { span });
                }
                Ok(Ty::kw(Kwd::Boolean))
            },
            BinOp::Lt | BinOp::LtEq | BinOp::Gt | BinOp::GtEq => {
                if lt.is_kwd(Kwd::Unknown) || rt.is_kwd(Kwd::Unknown) {
                    return Err(Diag::Unknown { span });
                }
                let ln = lt.normalize();
                if ln.is_kwd(Kwd::Null) {
                    self.report(Diag::ObjectIsPossiblyNull { span });
                } else if ln.is_kwd(Kwd::Undefined) {
                    self.report(Diag::ObjectIsPossiblyUndefined { span });
                }
                let rn = rt.normalize();
                if rn.is_kwd(Kwd::Null) {
                    self.report(Diag::ObjectIsPossiblyNull { span });
                } else if rn.is_kwd(Kwd::Undefined) {
                    self.report(Diag::ObjectIsPossiblyUndefined { span });
                }
                let ds = validate_relative_comparison_operands(&self.env, span, op, lt, rt, fuel);
                self.report_all(&ds);
                proof {
                    let tr = typing_v(
                        old(self).env,
                        e.op,
                        lt@,
                        rt@,
                        ann_none,
                        e.right.kind is Ident,
                        old(self).ctx.can_generalize_literals,
                        e.span,
                        fuel as nat,
                    );
                    assert(self.diags@ =~= old(self).diags@ + tr.0);
                }
                Ok(Ty::kw(Kwd::Boolean))
            },
            BinOp::In => Ok(Ty::kw(Kwd::Boolean)),
            BinOp::LogicalOr | BinOp::LogicalAnd => {
                let right_is_ident = matches!(&e.right.kind, ExprKind::Ident(_));
                let can_generalize = ann_none && !right_is_ident;
                logical_result(op, lt, rt, can_generalize, self.ctx.can_generalize_literals, span)
            },
            BinOp::NullishCoalescing => Ok(nullish_result(lt, rt)),
        }
    }
}


/// The propagated diagnostics of an error are its view's.
proof fn lemma_error_diags(e: &Error)
    ensures e.diags() == e@.diags(),
{
    match e {
        Error::One(_) => {},
        Error::Errors { .. } => {},
    }
}

impl Analyzer {
    /// The dispatcher's left phase: the mixed-nullish check, the left
    /// operand's evaluation under the adjusted context, and the seeds the
    /// operator's row of §4.2 takes from it; the facts are restored to
    /// what they were.
    #[verifier::rlimit(100)]
    #[verifier::spinoff_prover]
    fn bin_seeds(&mut self, e: &BinExpr, type_ann: Option<&Ty>)
        -> (r: (Option<Ty>, Vec<Diag>, CondFacts, CondFacts, Facts))
        requires old(self).wf(),
        ensures
            final(self).wf(),
            final(self).env == old(self).env,
            final(self).ctx == old(self).ctx,
            final(self).cur_facts@ == old(self).cur_facts@,
            r.2.wf(),
            r.3.wf(),
            r.4.wf(),
            ({
                let op = e.op;
                let ctx_l = Ctx {
                    should_store_truthy_for_access: old(self).ctx.should_store_truthy_for_access
                        && op == BinOp::LogicalAnd,
                    ..old(self).ctx
                };
                let lhs_ann: Option<TyV> = if op == BinOp::NullishCoalescing || op == BinOp::LogicalOr {
                    ann_view(type_ann)
                } else {
                    None
                };
                let lo = eval_operand_v(old(self).env, ctx_l, old(self).cur_facts@, *e.left, lhs_ann, e.span);
                let d0: Seq<Diag> = match mixed_nullish_v(*e) {
                    Some(d) => seq![d],
                    None => Seq::empty(),
                };
                &&& final(self).diags@ == old(self).diags@ + (d0 + lo.diags)
                &&& (match (r.0, lo.result) {
                    (Some(t), Ok(tv)) => t@ == tv,
                    (None, Err(_)) => true,
                    _ => false,
                })
                &&& r.1@ == (match lo.result {
                    Ok(_) => Seq::<Diag>::empty(),
                    Err(er) => er.diags(),
                })
                &&& r.2@ == (if op == BinOp::LogicalAnd {
                    lo.facts.true_facts
                } else if op == BinOp::LogicalOr {
                    lo.facts.false_facts
                } else {
                    cf_empty_v()
                })
                &&& r.3@ == (if op == BinOp::LogicalAnd {
                    lo.facts.false_facts
                } else {
                    cf_empty_v()
                })
                &&& r.4@ == (if op == BinOp::LogicalOr {
                    lo.facts
                } else {
                    facts_empty_v()
                })
            }),
        decreases *e, 0nat,
    {
        proof {
            assert(decreases_to!(*e => e.left));
            lemma_diags_add_empty(old(self).diags@);
        }
        let span = e.span;
        let op = e.op;
        let prev_facts = self.cur_facts.clone();
        proof {
            lemma_cf_same_bridge(prev_facts.true_facts, old(self).cur_facts.true_facts);
            lemma_cf_same_bridge(prev_facts.false_facts, old(self).cur_facts.false_facts);
            assert(prev_facts@ =~= old(self).cur_facts@);
        }

        match check_for_mixed_nullish_coalescing(e) {
            Some(d) => self.report(d),
            None => {},
        }

        let mut errors: Vec<Diag> = Vec::new();

        // Left operand, with truthiness recording only kept across `&&`.
        let saved_ctx = self.ctx;
        self.ctx.should_store_truthy_for_access = self.ctx.should_store_truthy_for_access
            && matches!(op, BinOp::LogicalAnd);
        let lhs_ann = match op {
            BinOp::NullishCoalescing | BinOp::LogicalOr => type_ann,
            _ => None,
        };
        let lt_res = self.eval_operand(&e.left, lhs_ann, span);
        self.ctx = saved_ctx;
        let lt_opt: Option<Ty> = match lt_res {
            Ok(t) => Some(t),
            Err(err) => {
                proof {
                    lemma_error_diags(&err);
                }
                collect_error(&mut errors, err);
                None
            },
        };

        // Seeds per operator.
        let mut true_facts_for_rhs = CondFacts::empty();
        let mut additional_false_facts = CondFacts::empty();
        let mut lhs_facts = Facts::empty();
        proof {
            lemma_cf_empty_bridge(true_facts_for_rhs);
            lemma_cf_empty_bridge(additional_false_facts);
            lemma_cf_empty_bridge(lhs_facts.true_facts);
            lemma_cf_empty_bridge(lhs_facts.false_facts);
            assert(lhs_facts@ =~= facts_empty_v());
        }
        if matches!(op, BinOp::LogicalAnd) {
            true_facts_for_rhs = self.cur_facts.true_facts.take();
            additional_false_facts = self.cur_facts.false_facts.take();
        } else if matches!(op, BinOp::LogicalOr) {
            true_facts_for_rhs = self.cur_facts.false_facts.clone();
            proof {
                lemma_cf_same_bridge(true_facts_for_rhs, self.cur_facts.false_facts);
            }
            lhs_facts = self.cur_facts.take();
        }
        self.cur_facts = prev_facts;
        (lt_opt, errors, true_facts_for_rhs, additional_false_facts, lhs_facts)
    }

    /// The contextual type handed to the right operand: the annotation for
    /// the short-circuiting operators, else the truthy-faceted or plain
    /// left type.
    fn rhs_ann_of(op: BinOp, type_ann: Option<&Ty>, lt_opt: &Option<Ty>) -> (r: Option<Ty>)
        ensures ({
            let ltv: Option<TyV> = match *lt_opt {
                Some(t) => Some(t@),
                None => None,
            };
            (match r {
                Some(t) => Some(t@),
                None => None::<TyV>,
            }) == (if op == BinOp::NullishCoalescing || op == BinOp::LogicalAnd || op == BinOp::LogicalOr {
                match ann_view(type_ann) {
                    Some(t) => Some(t),
                    None => if op == BinOp::NullishCoalescing || op == BinOp::LogicalOr {
                        match ltv {
                            Some(l) => Some(remove_falsy_v(l)),
                            None => None,
                        }
                    } else {
                        ltv
                    },
                }
            } else {
                None
            })
        }),
    {
        match op {
            BinOp::NullishCoalescing | BinOp::LogicalAnd | BinOp::LogicalOr => match type_ann {
                Some(t) => Some(t.clone()),
                None => match op {
                    BinOp::NullishCoalescing | BinOp::LogicalOr => match lt_opt {
                        Some(l) => Some(l.remove_falsy()),
                        None => None,
                    },
                    _ => match lt_opt {
                        Some(l) => Some(l.clone()),
                        None => None,
                    },
                },
            },
            _ => None,
        }
    }

    /// The dispatcher's preamble: evaluate both operands with the right
    /// seeds and the child scope, report the operand validation, and merge
    /// the branch facts per the operator.
    #[verifier::rlimit(100)]
    #[verifier::spinoff_prover]
    fn bin_operands(&mut self, e: &BinExpr, type_ann: Option<&Ty>) -> (r: Result<(Ty, Ty), Error>)
        requires old(self).wf(),
        ensures
            final(self).wf(),
            final(self).env == old(self).env,
            final(self).ctx == old(self).ctx,
            ({
                let p = bin_operands_v(old(self).env, old(self).ctx, old(self).cur_facts@, *e, ann_view(type_ann));
                &&& final(self).cur_facts@ == p.0
                &&& final(self).diags@ == old(self).diags@ + p.1
                &&& match (r, p.2) {
                    (Ok(ts), Ok(tv)) => ts.0@ == tv.0 && ts.1@ == tv.1,
                    (Err(er), Err(ev)) => er@ == ev,
                    _ => false,
                }
            }),
        decreases *e, 1nat,
    {
        proof {
            assert(decreases_to!(*e => e.right));
            lemma_diags_add_empty(old(self).diags@);
        }
        let span = e.span;
        let op = e.op;
        let fuel = self.fuel();
        let ghost ctx_l = Ctx {
            should_store_truthy_for_access: old(self).ctx.should_store_truthy_for_access && op == BinOp::LogicalAnd,
            ..old(self).ctx
        };
        let ghost lhs_ann_v: Option<TyV> = if op == BinOp::NullishCoalescing || op == BinOp::LogicalOr {
            ann_view(type_ann)
        } else {
            None
        };
        let ghost lo = eval_operand_v(old(self).env, ctx_l, old(self).cur_facts@, *e.left, lhs_ann_v, span);
        let ghost d0: Seq<Diag> = match mixed_nullish_v(*e) {
            Some(d) => seq![d],
            None => Seq::empty(),
        };
        let (lt_opt, mut errors, true_facts_for_rhs, additional_false_facts, lhs_facts) =
            self.bin_seeds(e, type_ann);
        let ghost tf_v = true_facts_for_rhs@;
        let ghost af_v = additional_false_facts@;
        let ghost lhs_v = lhs_facts@;

        // Right operand, inside a child flow scope.
        let rhs_ann_owned: Option<Ty> = Self::rhs_ann_of(op, type_ann, &lt_opt);
        let ghost lt_opt_v: Option<TyV> = match lo.result {
            Ok(t) => Some(t),
            Err(_) => None,
        };
        let ghost rhs_ann_v: Option<TyV> = if op == BinOp::NullishCoalescing || op == BinOp::LogicalAnd
            || op == BinOp::LogicalOr {
            match ann_view(type_ann) {
                Some(t) => Some(t),
                None => if op == BinOp::NullishCoalescing || op == BinOp::LogicalOr {
                    match lt_opt_v {
                        Some(l) => Some(remove_falsy_v(l)),
                        None => None,
                    }
                } else {
                    lt_opt_v
                },
            }
        } else {
            None
        };
        let seed = true_facts_for_rhs.clone();
        proof {
            lemma_cf_same_bridge(seed, true_facts_for_rhs);
        }
        let ghost co = eval_operand_v(
            old(self).env,
            Ctx { should_store_truthy_for_access: false, ..old(self).ctx },
            FactsV { true_facts: tf_v, false_facts: cf_empty_v() },
            *e.right,
            rhs_ann_v,
            span,
        );
        let (rt_res, child_facts) = self.with_child_flow(&e.right, seed, rhs_ann_owned.as_ref(), span);
        proof {
            assert(child_facts@ == co.facts);
        }
        let rt_opt: Option<Ty> = match rt_res {
            Ok(t) => Some(t),
            Err(err) => {
                proof {
                    lemma_error_diags(&err);
                }
                collect_error(&mut errors, err);
                None
            },
        };
        let ghost rt_opt_v: Option<TyV> = match co.result {
            Ok(t) => Some(t),
            Err(_) => None,
        };

        // Operand validation.
        let inner = validate_bin_inner(&self.env, span, op, lt_opt.as_ref(), rt_opt.as_ref(), fuel);
        proof {
            assert((match lt_opt {
                Some(t) => Some(t@),
                None => None::<TyV>,
            }) == lt_opt_v);
            assert((match rt_opt {
                Some(t) => Some(t@),
                None => None::<TyV>,
            }) == rt_opt_v);
        }
        self.report_all(&inner);
        let ghost d_inner = validate_bin_inner_v(old(self).env, span, op, lt_opt_v, rt_opt_v, fuel as nat);
        let ghost diags_a = d0 + lo.diags + co.diags + d_inner;
        proof {
            assert(self.diags@ =~= old(self).diags@ + diags_a);
        }

        // Fact merges per operator.
        self.apply_merge(op, child_facts, true_facts_for_rhs, additional_false_facts, lhs_facts);
        proof {
            assert(self.cur_facts@ == merge_v(op, old(self).cur_facts@, co.facts, tf_v, af_v, lhs_v));
        }

        // Both operands are needed from here on.
        match (lt_opt, rt_opt) {
            (Some(l), Some(r)) => Ok((l, r)),
            _ => Err(Error::Errors { span, errors }),
        }
    }

    /// The dispatcher's tail: the operator-specific narrowing sections and
    /// the typing rule.
    #[verifier::rlimit(100)]
    #[verifier::spinoff_prover]
    fn bin_finish(&mut self, e: &BinExpr, lt: &Ty, rt: &Ty, ann_none: bool, fuel: usize) -> (r: Result<Ty, Diag>)
        requires old(self).wf(), fuel as nat == fuel_v(old(self).env),
        ensures
            final(self).wf(),
            final(self).env == old(self).env,
            final(self).ctx == old(self).ctx,
            ({
                let fin = bin_finish_v(old(self).env, old(self).ctx, old(self).cur_facts@, *e, lt@, rt@, ann_none);
                &&& final(self).cur_facts@ == fin.0
                &&& final(self).diags@ == old(self).diags@ + fin.1
                &&& match (r, fin.2) {
                    (Ok(t), Ok(tv)) => t@ == tv,
                    (Err(d), Err(dv)) => d == dv,
                    _ => false,
                }
            }),
    {
        proof {
            lemma_diags_add_empty(old(self).diags@);
        }
        let op = e.op;
        if matches!(op, BinOp::EqEqEq | BinOp::NotEqEq | BinOp::EqEq | BinOp::NotEq) {
            match self.eq_section(e, lt, rt, fuel) {
                Some(d) => {
                    return Err(d);
                },
                None => {},
            }
        }
        let ghost eqr: (FactsV, Seq<Diag>, Option<Diag>) = if e.op.is_equality() {
            eq_section_v(old(self).env, old(self).ctx, old(self).cur_facts@, *e, lt@, rt@, fuel as nat)
        } else {
            (old(self).cur_facts@, Seq::empty(), None)
        };
        proof {
            assert(self.cur_facts@ == eqr.0);
            assert(self.diags@ =~= old(self).diags@ + eqr.1);
        }

        if matches!(op, BinOp::InstanceOf) {
            match self.inst_section(e, rt, fuel) {
                Some(d) => {
                    let ghost ir = inst_section_v(old(self).env, old(self).ctx, eqr.0, *e, rt@, fuel as nat);
                    proof {
                        assert(self.diags@ =~= old(self).diags@ + (eqr.1 + ir.1));
                    }
                    return Err(d);
                },
                None => {},
            }
        }
        let ghost ir: (FactsV, Seq<Diag>, Option<Diag>) = if e.op == BinOp::InstanceOf {
            inst_section_v(old(self).env, old(self).ctx, eqr.0, *e, rt@, fuel as nat)
        } else {
            (eqr.0, Seq::empty(), None)
        };
        proof {
            assert(self.cur_facts@ == ir.0);
            assert(self.diags@ =~= old(self).diags@ + (eqr.1 + ir.1));
        }

        if matches!(op, BinOp::In) && self.ctx.in_cond_of_cond_expr {
            self.in_section(e, rt);
        }

        let tr = self.typing_tail(e, lt, rt, ann_none, fuel);
        proof {
            let fin = bin_finish_v(old(self).env, old(self).ctx, old(self).cur_facts@, *e, lt@, rt@, ann_none);
            assert(self.cur_facts@ == fin.0);
            assert(self.diags@ =~= old(self).diags@ + fin.1);
        }
        tr
    }

    /// Validate a binary expression: evaluate both operands, merge the
    /// branch facts per the operator, run the operator's narrowing, and
    /// compute the result type. The whole behaviour — result, fact deltas
    /// and appended diagnostics — is the ghost dispatcher's, so two runs
    /// from one state on one expression agree in all three.
    #[verifier::rlimit(100)]
    #[verifier::spinoff_prover]
    pub fn validate_bin(&mut self, e: &BinExpr, type_ann: Option<&Ty>) -> (r: Result<Ty, Error>)
        requires old(self).wf(),
        ensures
            final(self).wf(),
            final(self).env == old(self).env,
            final(self).ctx == old(self).ctx,
            crate::diag::diags_extended(old(self).diags@, final(self).diags@),
            ({
                let o = validate_bin_v(old(self).env, old(self).ctx, old(self).cur_facts@, *e, ann_view(type_ann));
                &&& final(self).cur_facts@ == o.facts
                &&& final(self).diags@ == old(self).diags@ + o.diags
                &&& match (r, o.result) {
                    (Ok(t), Ok(tv)) => t@ == tv,
                    (Err(er), Err(ev)) => er@ == ev,
                    _ => false,
                }
            }),
        decreases *e, 4nat,
    {
        let fuel = self.fuel();
        let ghost p = bin_operands_v(old(self).env, old(self).ctx, old(self).cur_facts@, *e, ann_view(type_ann));
        let (lt, rt) = match self.bin_operands(e, type_ann) {
            Ok(ts) => ts,
            Err(er) => {
                return Err(er);
            },
        };
        let ann_none = matches!(type_ann, None);
        let tr = self.bin_finish(e, &lt, &rt, ann_none, fuel);
        proof {
            let o = validate_bin_v(old(self).env, old(self).ctx, old(self).cur_facts@, *e, ann_view(type_ann));
            let fin = bin_finish_v(old(self).env, old(self).ctx, p.0, *e, lt@, rt@, ann_none);
            assert(self.diags@ =~= old(self).diags@ + (p.1 + fin.1));
            assert(self.diags@ =~= old(self).diags@ + o.diags);
        }
        match tr {
            Ok(t) => Ok(t),
            Err(d) => Err(Error::One(d)),
        }
    }
}

} // verus!
