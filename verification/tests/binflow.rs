//! End-to-end scenarios for the binary-expression checker: the narrowing
//! fact deltas, the operator result types, and the diagnostics.

use binflow::analyzer::Analyzer;
use binflow::ast::BinExpr;
use binflow::ast::BinOp;
use binflow::ast::Expr;
use binflow::ast::ExprKind;
use binflow::ast::Lit;
use binflow::ast::Span;
use binflow::ast::UnaryOp;
use binflow::diag::Diag;
use binflow::diag::Error;
use binflow::env::Env;
use binflow::facts::Name;
use binflow::facts::FACT_FALSY;
use binflow::facts::FACT_TRUTHY;
use binflow::facts::FACT_TYPEOF_EQ_STRING;
use binflow::facts::FACT_TYPEOF_NE_STRING;
use binflow::structural::type_eq;
use binflow::sym::SYM_FIRST_FREE;
use binflow::sym::SYM_STRING;
use binflow::ty::ClassDef;
use binflow::ty::Kwd;
use binflow::ty::LitVal;
use binflow::ty::Ty;
use binflow::ty::TyKind;
use binflow::ty::TypeElement;

const X: u32 = SYM_FIRST_FREE;
const Y: u32 = SYM_FIRST_FREE + 1;
const OBJ: u32 = SYM_FIRST_FREE + 2;
const PROP_A: u32 = SYM_FIRST_FREE + 3;
const PROP_B: u32 = SYM_FIRST_FREE + 4;
const CLASS_C: u32 = SYM_FIRST_FREE + 5;
const CLASS_D: u32 = SYM_FIRST_FREE + 6;

fn sp() -> Span {
    Span { lo: 0, hi: 1 }
}

fn ident(s: u32) -> Expr {
    Expr { span: sp(), kind: ExprKind::Ident(s) }
}

fn lit(l: Lit) -> Expr {
    Expr { span: sp(), kind: ExprKind::Lit(l) }
}

fn bin(op: BinOp, left: Expr, right: Expr) -> BinExpr {
    BinExpr { span: sp(), op, left: Box::new(left), right: Box::new(right) }
}

fn bin_expr(op: BinOp, left: Expr, right: Expr) -> Expr {
    Expr { span: sp(), kind: ExprKind::Bin(Box::new(bin(op, left, right))) }
}

fn typeof_of(s: u32) -> Expr {
    Expr { span: sp(), kind: ExprKind::Unary(UnaryOp::Typeof, Box::new(ident(s))) }
}

fn union2(a: Ty, b: Ty) -> Ty {
    Ty { no_generalize: false, kind: TyKind::Union(vec![a, b]) }
}

fn union3(a: Ty, b: Ty, c: Ty) -> Ty {
    Ty { no_generalize: false, kind: TyKind::Union(vec![a, b, c]) }
}

fn num_lit(n: i64) -> Ty {
    Ty::lit(LitVal::Num(n))
}

fn class_ty(name: u32) -> Ty {
    Ty {
        no_generalize: false,
        kind: TyKind::Class(Box::new(ClassDef { name: Some(name), super_class: None, body: vec![] })),
    }
}

fn type_lit(key: u32, value: Ty) -> Ty {
    Ty { no_generalize: false, kind: TyKind::TypeLit(vec![TypeElement::Property(key, value)]) }
}

fn analyzer_with(vars: Vec<(u32, Ty)>) -> Analyzer {
    let mut env = Env::new();
    for (s, t) in vars {
        env.vars.set(Name::ident(s), t);
    }
    Analyzer::new(env)
}

/// S1: `typeof x === "string"` with `x: string | number` inside a
/// condition leaves the typeof facts on both branches and has type
/// `boolean`.
#[test]
fn typeof_equality_installs_typeof_facts() {
    let mut a = analyzer_with(vec![(X, union2(Ty::kw(Kwd::Str), Ty::kw(Kwd::Number)))]);
    a.ctx.in_cond_of_cond_expr = true;
    let e = bin(BinOp::EqEqEq, typeof_of(X), lit(Lit::Str(SYM_STRING)));
    let r = a.validate_bin(&e, None).unwrap();
    assert!(type_eq(&r, &Ty::kw(Kwd::Boolean)));
    assert_eq!(a.cur_facts.true_facts.facts.get(&Name::ident(X)), Some(FACT_TYPEOF_EQ_STRING));
    assert_eq!(a.cur_facts.false_facts.facts.get(&Name::ident(X)), Some(FACT_TYPEOF_NE_STRING));
    assert!(a.diags.is_empty());
}

/// S2: `x === 1` with `x: 1 | 2 | 3`: the true branch replaces `x` by `1`,
/// the false branch excludes `1`, and the expression is `boolean`.
#[test]
fn equality_narrows_union_to_literal() {
    let mut a = analyzer_with(vec![(X, union3(num_lit(1), num_lit(2), num_lit(3)))]);
    a.ctx.in_cond_of_cond_expr = true;
    let e = bin(BinOp::EqEqEq, ident(X), lit(Lit::Num(1)));
    let r = a.validate_bin(&e, None).unwrap();
    assert!(type_eq(&r, &Ty::kw(Kwd::Boolean)));
    let var = a.cur_facts.true_facts.vars.get(&Name::ident(X)).unwrap();
    assert!(type_eq(&var, &num_lit(1)));
    let excl = a.cur_facts.false_facts.excludes.get(&Name::ident(X)).unwrap();
    assert_eq!(excl.len(), 1);
    assert!(type_eq(&excl[0], &num_lit(1)));
    assert!(a.cur_facts.true_facts.excludes.get(&Name::ident(X)).is_none());
}

/// S3: across `x && (typeof y === "string")`, the true branch holds both
/// operands' facts, the false branch only the left one's.
#[test]
fn logical_and_composes_branch_facts() {
    let mut a = analyzer_with(vec![
        (X, Ty::kw(Kwd::Boolean)),
        (Y, union2(Ty::kw(Kwd::Str), Ty::kw(Kwd::Number))),
    ]);
    a.ctx.in_cond_of_cond_expr = true;
    a.ctx.should_store_truthy_for_access = true;
    let inner = bin_expr(BinOp::EqEqEq, typeof_of(Y), lit(Lit::Str(SYM_STRING)));
    let e = bin(BinOp::LogicalAnd, ident(X), inner);
    let r = a.validate_bin(&e, None).unwrap();
    assert!(type_eq(&r, &Ty::kw(Kwd::Boolean)));
    assert_eq!(a.cur_facts.true_facts.facts.get(&Name::ident(X)), Some(FACT_TRUTHY));
    assert_eq!(a.cur_facts.true_facts.facts.get(&Name::ident(Y)), Some(FACT_TYPEOF_EQ_STRING));
    assert_eq!(a.cur_facts.false_facts.facts.get(&Name::ident(X)), Some(FACT_FALSY));
    assert_eq!(a.cur_facts.false_facts.facts.get(&Name::ident(Y)), None);
}

/// S4: `"a" in obj` with `obj: {a: 1} | {b: 2}` replaces `obj` by `{a: 1}`
/// on the true branch.
#[test]
fn in_narrows_union_by_property() {
    let with_a = type_lit(PROP_A, num_lit(1));
    let with_b = type_lit(PROP_B, num_lit(2));
    let mut a = analyzer_with(vec![(OBJ, union2(with_a.clone(), with_b))]);
    a.ctx.in_cond_of_cond_expr = true;
    let e = bin(BinOp::In, lit(Lit::Str(PROP_A)), ident(OBJ));
    let r = a.validate_bin(&e, None).unwrap();
    assert!(type_eq(&r, &Ty::kw(Kwd::Boolean)));
    let var = a.cur_facts.true_facts.vars.get(&Name::ident(OBJ)).unwrap();
    assert!(type_eq(&var, &with_a));
}

/// S5: `x instanceof C` with `x: C | D` and unrelated classes `C`, `D`
/// replaces `x` by `C` on the true branch and excludes `C` on the false
/// branch.
#[test]
fn instanceof_narrows_union_of_classes() {
    let c = class_ty(CLASS_C);
    let d = class_ty(CLASS_D);
    let c_def = Ty {
        no_generalize: false,
        kind: TyKind::ClassDef(Box::new(ClassDef { name: Some(CLASS_C), super_class: None, body: vec![] })),
    };
    let mut a = analyzer_with(vec![(X, union2(c.clone(), d)), (Y, c_def)]);
    a.ctx.in_cond_of_cond_expr = true;
    let e = bin(BinOp::InstanceOf, ident(X), ident(Y));
    let r = a.validate_bin(&e, None).unwrap();
    assert!(type_eq(&r, &Ty::kw(Kwd::Boolean)));
    let var = a.cur_facts.true_facts.vars.get(&Name::ident(X)).unwrap();
    assert!(type_eq(&var, &c));
    let excl = a.cur_facts.false_facts.excludes.get(&Name::ident(X)).unwrap();
    assert_eq!(excl.len(), 1);
    assert!(type_eq(&excl[0], &c));
}

/// S6, first part: `"a" + 1` is `string` with no diagnostics.
#[test]
fn plus_string_and_number_is_string() {
    let mut a = analyzer_with(vec![]);
    let e = bin(BinOp::Plus, lit(Lit::Str(PROP_A)), lit(Lit::Num(1)));
    let r = a.validate_bin(&e, None).unwrap();
    assert!(type_eq(&r, &Ty::kw(Kwd::Str)));
    assert!(a.diags.is_empty());
}

/// S6, second part: `null + 1` is the propagated nullish-operand error.
#[test]
fn plus_null_is_an_error() {
    let mut a = analyzer_with(vec![]);
    let e = bin(BinOp::Plus, lit(Lit::Null), lit(Lit::Num(1)));
    match a.validate_bin(&e, None) {
        Err(Error::One(Diag::TS2365 { .. })) => {}
        _ => panic!("a nullish operand of + must propagate its error"),
    }
}

/// S6, third part: a variable of type `unknown` under `+` is rejected.
#[test]
fn plus_unknown_is_an_error() {
    let mut a = analyzer_with(vec![(X, Ty::kw(Kwd::Unknown))]);
    let e = bin(BinOp::Plus, ident(X), lit(Lit::Num(1)));
    match a.validate_bin(&e, None) {
        Err(Error::One(Diag::Unknown { .. })) => {}
        _ => panic!("an unknown operand of + must propagate its error"),
    }
}

/// A child flow scope leaves the analyzer's facts exactly as they were:
/// the nested condition's facts do not escape through `+`.
#[test]
fn child_scope_facts_do_not_escape() {
    let mut a = analyzer_with(vec![(Y, union2(Ty::kw(Kwd::Str), Ty::kw(Kwd::Number)))]);
    a.ctx.in_cond_of_cond_expr = true;
    let inner = bin_expr(BinOp::EqEqEq, typeof_of(Y), lit(Lit::Str(SYM_STRING)));
    let e = bin(BinOp::Plus, lit(Lit::Num(1)), inner);
    let _ = a.validate_bin(&e, None);
    assert_eq!(a.cur_facts.true_facts.facts.get(&Name::ident(Y)), None);
    assert_eq!(a.cur_facts.false_facts.facts.get(&Name::ident(Y)), None);
}

/// Comparing two distinct numeric literals has no overlap.
#[test]
fn equality_of_distinct_literals_reports_no_overlap() {
    let mut a = analyzer_with(vec![]);
    let e = bin(BinOp::EqEqEq, lit(Lit::Num(1)), lit(Lit::Num(2)));
    let r = a.validate_bin(&e, None).unwrap();
    assert!(type_eq(&r, &Ty::kw(Kwd::Boolean)));
    assert!(a.diags.iter().any(|d| matches!(d, Diag::NoOverlap { .. })));
}

/// The same comparison inside a switch case test reports the case-test
/// diagnostic instead.
#[test]
fn switch_case_test_reports_its_own_diagnostic() {
    let mut a = analyzer_with(vec![]);
    a.ctx.in_switch_case_test = true;
    let e = bin(BinOp::EqEqEq, lit(Lit::Num(1)), lit(Lit::Num(2)));
    let _ = a.validate_bin(&e, None).unwrap();
    assert!(a.diags.iter().any(|d| matches!(d, Diag::SwitchCaseTestNotCompatible { .. })));
}

/// A dotted name of three segments under equality narrowing surfaces the
/// unimplemented gap rather than succeeding silently.
#[test]
fn deep_dotted_name_is_unimplemented() {
    let inner = type_lit(PROP_B, num_lit(1));
    let outer = type_lit(PROP_A, inner);
    let mut a = analyzer_with(vec![(OBJ, outer)]);
    a.ctx.in_cond_of_cond_expr = true;
    let member_ab = Expr {
        span: sp(),
        kind: ExprKind::Member {
            obj: Box::new(Expr {
                span: sp(),
                kind: ExprKind::Member {
                    obj: Box::new(ident(OBJ)),
                    prop: Box::new(ident(PROP_A)),
                    computed: false,
                },
            }),
            prop: Box::new(ident(PROP_B)),
            computed: false,
        },
    };
    let e = bin(BinOp::EqEqEq, member_ab, lit(Lit::Num(1)));
    match a.validate_bin(&e, None) {
        Err(Error::One(Diag::Unimplemented { .. })) => {}
        r => panic!("three-segment names must surface Unimplemented, got {:?}", r.is_ok()),
    }
}

/// An undeclared identifier fails with the missing-variable error.
#[test]
fn unknown_identifier_is_reported() {
    let mut a = analyzer_with(vec![]);
    let e = bin(BinOp::Plus, ident(X), lit(Lit::Num(1)));
    match a.validate_bin(&e, None) {
        Err(Error::Errors { errors, .. }) => {
            assert!(errors.iter().any(|d| matches!(d, Diag::NoSuchVar { .. })));
        }
        _ => panic!("an undeclared identifier must collect NoSuchVar"),
    }
}

/// The typeof facts apply outside conditions too, and a disequality swaps
/// the two branches.
#[test]
fn typeof_disequality_swaps_branches() {
    let mut a = analyzer_with(vec![(X, union2(Ty::kw(Kwd::Str), Ty::kw(Kwd::Number)))]);
    let e = bin(BinOp::NotEqEq, typeof_of(X), lit(Lit::Str(SYM_STRING)));
    let r = a.validate_bin(&e, None).unwrap();
    assert!(type_eq(&r, &Ty::kw(Kwd::Boolean)));
    assert_eq!(a.cur_facts.true_facts.facts.get(&Name::ident(X)), Some(FACT_TYPEOF_NE_STRING));
    assert_eq!(a.cur_facts.false_facts.facts.get(&Name::ident(X)), Some(FACT_TYPEOF_EQ_STRING));
}
