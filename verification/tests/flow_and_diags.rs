//! The `||` fact composition, reference expansion through the environment,
//! and the remaining operand diagnostics.

use binflow::analyzer::Analyzer;
use binflow::ast::BinExpr;
use binflow::ast::BinOp;
use binflow::ast::Expr;
use binflow::ast::ExprKind;
use binflow::ast::Lit;
use binflow::ast::Span;
use binflow::ast::UnaryOp;
use binflow::diag::Diag;
use binflow::diag::Error;
use binflow::env::Env;
use binflow::facts::Name;
use binflow::facts::FACT_TYPEOF_EQ_NUMBER;
use binflow::facts::FACT_TYPEOF_EQ_STRING;
use binflow::structural::type_eq;
use binflow::sym::SYM_FIRST_FREE;
use binflow::sym::SYM_NUMBER;
use binflow::sym::SYM_STRING;
use binflow::ty::Kwd;
use binflow::ty::Ty;
use binflow::ty::TyKind;

const A: u32 = SYM_FIRST_FREE;
const X: u32 = SYM_FIRST_FREE + 1;
const REF_T: u32 = SYM_FIRST_FREE + 2;

fn sp() -> Span {
    Span { lo: 2, hi: 9 }
}

fn ident(s: u32) -> Expr {
    Expr { span: sp(), kind: ExprKind::Ident(s) }
}

fn lit(l: Lit) -> Expr {
    Expr { span: sp(), kind: ExprKind::Lit(l) }
}

fn bin(op: BinOp, left: Expr, right: Expr) -> BinExpr {
    BinExpr { span: sp(), op, left: Box::new(left), right: Box::new(right) }
}

fn bin_expr(op: BinOp, left: Expr, right: Expr) -> Expr {
    Expr { span: sp(), kind: ExprKind::Bin(Box::new(bin(op, left, right))) }
}

fn typeof_of(s: u32) -> Expr {
    Expr { span: sp(), kind: ExprKind::Unary(UnaryOp::Typeof, Box::new(ident(s))) }
}

/// Across `typeof a === "string" || typeof a === "number"`, the fact known
/// on both branches survives as the AND of the two fact sets.
#[test]
fn logical_or_ands_facts_present_on_both_sides() {
    let mut env = Env::new();
    env.vars.set(Name::ident(A), Ty::kw(Kwd::Str));
    let mut an = Analyzer::new(env);
    an.ctx.in_cond_of_cond_expr = true;
    let left = bin_expr(BinOp::EqEqEq, typeof_of(A), lit(Lit::Str(SYM_STRING)));
    let right = bin_expr(BinOp::EqEqEq, typeof_of(A), lit(Lit::Str(SYM_NUMBER)));
    let e = bin(BinOp::LogicalOr, left, right);
    let _ = an.validate_bin(&e, None).unwrap();
    assert_eq!(
        an.cur_facts.true_facts.facts.get(&Name::ident(A)),
        Some(FACT_TYPEOF_EQ_STRING & FACT_TYPEOF_EQ_NUMBER)
    );
}

/// The merge the true branch of `||` uses: a key present on both sides
/// survives as the AND of the two fact sets; a key the left side alone
/// knows is dropped, not inherited.
#[test]
fn logical_or_true_merge_drops_vacant_keys() {
    let mut child = binflow::facts::FactMap::empty();
    child.set(Name::ident(A), FACT_TYPEOF_EQ_STRING | FACT_TYPEOF_EQ_NUMBER);
    let mut lhs = binflow::facts::FactMap::empty();
    lhs.set(Name::ident(A), FACT_TYPEOF_EQ_STRING);
    lhs.set(Name::ident(X), FACT_TYPEOF_EQ_NUMBER);
    child.merge_and_present(&lhs);
    assert_eq!(child.get(&Name::ident(A)), Some(FACT_TYPEOF_EQ_STRING));
    assert_eq!(child.get(&Name::ident(X)), None);
}

/// An operand whose declared type is a reference is expanded through the
/// environment before the operator rule runs.
#[test]
fn reference_operands_are_expanded() {
    let mut env = Env::new();
    env.types.set(Name::ident(REF_T), Ty::kw(Kwd::Number));
    env.vars.set(Name::ident(X), Ty { no_generalize: false, kind: TyKind::Ref(REF_T) });
    let mut an = Analyzer::new(env);
    let e = bin(BinOp::Plus, ident(X), lit(Lit::Num(1)));
    let r = an.validate_bin(&e, None).unwrap();
    assert!(type_eq(&r, &Ty::kw(Kwd::Number)));
}

/// A reference to a name the environment does not define fails with the
/// unresolved-reference error.
#[test]
fn unresolved_reference_is_reported() {
    let mut env = Env::new();
    env.vars.set(Name::ident(X), Ty { no_generalize: false, kind: TyKind::Ref(REF_T) });
    let mut an = Analyzer::new(env);
    let e = bin(BinOp::Plus, ident(X), lit(Lit::Num(1)));
    match an.validate_bin(&e, None) {
        Err(Error::Errors { errors, .. }) => {
            assert!(errors.iter().any(|d| matches!(d, Diag::UnresolvedReference { .. })));
        }
        _ => panic!("an unresolved reference must be collected"),
    }
}

/// A `null` key on the left of `in` is possibly null; a number on the
/// right of `in` is no object type.
#[test]
fn in_operand_diagnostics() {
    let mut env = Env::new();
    env.vars.set(Name::ident(X), Ty { no_generalize: false, kind: TyKind::TypeLit(vec![]) });
    let mut an = Analyzer::new(env);
    let e = bin(BinOp::In, lit(Lit::Null), ident(X));
    let _ = an.validate_bin(&e, None).unwrap();
    assert!(an.diags.iter().any(|d| matches!(d, Diag::ObjectIsPossiblyNull { .. })));

    let mut an2 = Analyzer::new(Env::new());
    let e2 = bin(BinOp::In, lit(Lit::Str(A)), lit(Lit::Num(3)));
    let _ = an2.validate_bin(&e2, None).unwrap();
    assert!(an2.diags.iter().any(|d| matches!(d, Diag::TS2361 { .. })));

    let mut an3 = Analyzer::new(Env::new());
    let e3 = bin(BinOp::In, lit(Lit::Bool(true)), lit(Lit::Num(3)));
    let _ = an3.validate_bin(&e3, None).unwrap();
    assert!(an3.diags.iter().any(|d| matches!(d, Diag::TS2360 { .. })));
}

/// A number cannot be the subject of `instanceof`, and a string literal
/// cannot be its constructor.
#[test]
fn instanceof_operand_diagnostics() {
    let mut env = Env::new();
    env.vars.set(Name::ident(X), Ty::kw(Kwd::Number));
    let mut an = Analyzer::new(env);
    let e = bin(BinOp::InstanceOf, ident(X), lit(Lit::Str(A)));
    let r = an.validate_bin(&e, None).unwrap();
    assert!(type_eq(&r, &Ty::kw(Kwd::Boolean)));
    assert!(an.diags.iter().any(|d| matches!(d, Diag::InvalidLhsInInstanceOf { .. })));
    assert!(an.diags.iter().any(|d| matches!(d, Diag::InvalidRhsInInstanceOf { .. })));
}

/// A type parameter compares relationally with nothing numeric.
#[test]
fn relational_type_parameter_cannot_compare() {
    let mut env = Env::new();
    env.vars.set(Name::ident(X), Ty { no_generalize: false, kind: TyKind::Param(A) });
    let mut an = Analyzer::new(env);
    let e = bin(BinOp::Lt, ident(X), lit(Lit::Num(1)));
    let _ = an.validate_bin(&e, None).unwrap();
    assert!(an.diags.iter().any(|d| matches!(d, Diag::CannotCompareWithOp { .. })));
}

/// The diagnostics of one expression carry its span.
#[test]
fn diagnostics_carry_the_expression_span() {
    let mut an = Analyzer::new(Env::new());
    let e = bin(BinOp::EqEqEq, lit(Lit::Num(1)), lit(Lit::Num(2)));
    let _ = an.validate_bin(&e, None).unwrap();
    assert!(an.diags.iter().any(|d| matches!(d, Diag::NoOverlap { span: Span { lo: 2, hi: 9 } })));
}
