//! The operator result table on concrete operands, the canonicalization
//! passes and their idempotence on concrete types, the fact-merge monoid,
//! and the smaller helpers.

use binflow::analyzer::Analyzer;
use binflow::ast::BinExpr;
use binflow::ast::BinOp;
use binflow::ast::Expr;
use binflow::ast::ExprKind;
use binflow::ast::Lit;
use binflow::ast::Span;
use binflow::ast::extract_name_for_assignment;
use binflow::diag::Diag;
use binflow::env::Env;
use binflow::facts::CondFacts;
use binflow::facts::Name;
use binflow::facts::FACT_NE_NULL;
use binflow::facts::FACT_NE_UNDEFINED;
use binflow::facts::FACT_TRUTHY;
use binflow::facts::typeof_eq;
use binflow::facts::typeof_neq;
use binflow::structural::type_eq;
use binflow::sym::SYM_EMPTY;
use binflow::sym::SYM_FIRST_FREE;
use binflow::sym::SYM_NUMBER;
use binflow::sym::SYM_STRING;
use binflow::ty::Kwd;
use binflow::ty::LitVal;
use binflow::ty::QueryExpr;
use binflow::ty::Ty;
use binflow::ty::TyKind;
use binflow::ty_ops::union_from;
use binflow::query::assign_to_query_type;

const X: u32 = SYM_FIRST_FREE;
const Y: u32 = SYM_FIRST_FREE + 1;
const Z: u32 = SYM_FIRST_FREE + 2;

fn sp() -> Span {
    Span { lo: 0, hi: 1 }
}

fn ident(s: u32) -> Expr {
    Expr { span: sp(), kind: ExprKind::Ident(s) }
}

fn lit(l: Lit) -> Expr {
    Expr { span: sp(), kind: ExprKind::Lit(l) }
}

fn bin(op: BinOp, left: Expr, right: Expr) -> BinExpr {
    BinExpr { span: sp(), op, left: Box::new(left), right: Box::new(right) }
}

fn bin_expr(op: BinOp, left: Expr, right: Expr) -> Expr {
    Expr { span: sp(), kind: ExprKind::Bin(Box::new(bin(op, left, right))) }
}

fn num_lit(n: i64) -> Ty {
    Ty::lit(LitVal::Num(n))
}

fn str_lit(s: u32) -> Ty {
    Ty::lit(LitVal::Str(s))
}

fn union_of(ts: Vec<Ty>) -> Ty {
    Ty { no_generalize: false, kind: TyKind::Union(ts) }
}

fn fresh() -> Analyzer {
    Analyzer::new(Env::new())
}

/// Arithmetic operators yield `number`.
#[test]
fn arithmetic_yields_number() {
    let mut a = fresh();
    let e = bin(BinOp::Mul, lit(Lit::Num(2)), lit(Lit::Num(3)));
    let r = a.validate_bin(&e, None).unwrap();
    assert!(type_eq(&r, &Ty::kw(Kwd::Number)));
    let e2 = bin(BinOp::Minus, lit(Lit::Num(2)), lit(Lit::Num(3)));
    let r2 = a.validate_bin(&e2, None).unwrap();
    assert!(type_eq(&r2, &Ty::kw(Kwd::Number)));
}

/// Bitwise operators on two booleans report the dedicated diagnostic.
#[test]
fn bitwise_on_booleans_is_reported() {
    let mut a = fresh();
    let e = bin(BinOp::BitAnd, lit(Lit::Bool(true)), lit(Lit::Bool(false)));
    let r = a.validate_bin(&e, None).unwrap();
    assert!(type_eq(&r, &Ty::kw(Kwd::Number)));
    assert!(a.diags.iter().any(|d| matches!(d, Diag::TS2447 { .. })));
}

/// A numeric operator over a string operand reports the side's diagnostic.
#[test]
fn numeric_operator_rejects_string_side() {
    let mut a = fresh();
    let e = bin(BinOp::Mod, lit(Lit::Str(X)), lit(Lit::Num(2)));
    let r = a.validate_bin(&e, None).unwrap();
    assert!(type_eq(&r, &Ty::kw(Kwd::Number)));
    assert!(a.diags.iter().any(|d| matches!(d, Diag::WrongTypeForLhsOfNumericOperation { .. })));
}

/// `||` over two widened literals unions the falsy-stripped left with the
/// right.
#[test]
fn logical_or_unions_widened_sides() {
    let mut a = fresh();
    let e = bin(BinOp::LogicalOr, lit(Lit::Num(0)), lit(Lit::Str(X)));
    let r = a.validate_bin(&e, None).unwrap();
    let expected = union_from(vec![Ty::kw(Kwd::Number), Ty::kw(Kwd::Str)]);
    assert!(type_eq(&r, &expected));
}

/// `&&` with an unknowable left side yields the right side.
#[test]
fn logical_and_yields_right_side() {
    let mut a = fresh();
    let mut env = Env::new();
    env.vars.set(Name::ident(X), Ty::kw(Kwd::Boolean));
    a = Analyzer::new(env);
    let e = bin(BinOp::LogicalAnd, ident(X), lit(Lit::Num(5)));
    let r = a.validate_bin(&e, None).unwrap();
    assert!(type_eq(&r, &Ty::kw(Kwd::Number)));
}

/// `void` on the left of a logical operator is reported.
#[test]
fn logical_over_void_is_reported() {
    let mut env = Env::new();
    env.vars.set(Name::ident(X), Ty::kw(Kwd::Void));
    let mut a = Analyzer::new(env);
    let e = bin(BinOp::LogicalOr, ident(X), lit(Lit::Num(5)));
    let _ = a.validate_bin(&e, None).unwrap();
    assert!(a.diags.iter().any(|d| matches!(d, Diag::TS1345 { .. })));
}

/// `??` strips the falsy left part and unions what differs.
#[test]
fn nullish_coalescing_unions_non_falsy() {
    let mut env = Env::new();
    env.vars.set(Name::ident(X), union_of(vec![Ty::kw(Kwd::Str), Ty::kw(Kwd::Null)]));
    let mut a = Analyzer::new(env);
    let e = bin(BinOp::NullishCoalescing, ident(X), lit(Lit::Num(5)));
    let r = a.validate_bin(&e, None).unwrap();
    let expected = union_from(vec![Ty::kw(Kwd::Str), Ty::kw(Kwd::Number)]);
    assert!(type_eq(&r, &expected));
}

/// `??` directly beside `||` without parentheses is reported.
#[test]
fn mixed_nullish_coalescing_is_reported() {
    let mut a = fresh();
    let inner = bin_expr(BinOp::LogicalOr, lit(Lit::Num(1)), lit(Lit::Num(2)));
    let e = bin(BinOp::NullishCoalescing, inner, lit(Lit::Num(3)));
    let _ = a.validate_bin(&e, None).unwrap();
    assert!(a.diags.iter().any(|d| matches!(
        d,
        Diag::NullishCoalescingMixedWithLogicalWithoutParen { .. }
    )));
}

/// A relational comparison over `null` reports the nullish diagnostic.
#[test]
fn relational_over_null_is_reported() {
    let mut a = fresh();
    let e = bin(BinOp::Lt, lit(Lit::Null), lit(Lit::Num(1)));
    let r = a.validate_bin(&e, None).unwrap();
    assert!(type_eq(&r, &Ty::kw(Kwd::Boolean)));
    assert!(a.diags.iter().any(|d| matches!(d, Diag::ObjectIsPossiblyNull { .. })));
}

/// Two string literals compare relationally without complaint.
#[test]
fn relational_string_literals_are_fine() {
    let mut a = fresh();
    let e = bin(BinOp::Lt, lit(Lit::Str(X)), lit(Lit::Str(Y)));
    let _ = a.validate_bin(&e, None).unwrap();
    assert!(a.diags.iter().all(|d| !matches!(d, Diag::CannotCompareWithOp { .. })));
}

/// Normalization flattens nested unions, drops duplicates, and is
/// idempotent on what it yields.
#[test]
fn normalize_flattens_and_is_idempotent() {
    let nested = union_of(vec![
        Ty::kw(Kwd::Number),
        union_of(vec![Ty::kw(Kwd::Number), Ty::kw(Kwd::Str)]),
    ]);
    let once = nested.normalize();
    let expected = union_from(vec![Ty::kw(Kwd::Number), Ty::kw(Kwd::Str)]);
    assert!(type_eq(&once, &expected));
    let twice = once.normalize();
    assert!(type_eq(&twice, &once));
}

/// `remove_falsy` drops the falsy members and is idempotent.
#[test]
fn remove_falsy_drops_falsy_members_and_is_idempotent() {
    let u = union_of(vec![Ty::kw(Kwd::Null), Ty::kw(Kwd::Str), num_lit(0), str_lit(SYM_EMPTY)]);
    let once = u.remove_falsy();
    assert!(type_eq(&once, &Ty::kw(Kwd::Str)));
    let twice = once.remove_falsy();
    assert!(type_eq(&twice, &once));
    let nothing = Ty::kw(Kwd::Undefined).remove_falsy();
    assert!(type_eq(&nothing, &Ty::kw(Kwd::Never)));
}

/// `generalize_lit` widens literals to their keywords, skips marked nodes,
/// and is idempotent.
#[test]
fn generalize_lit_widens_and_is_idempotent() {
    let once = num_lit(3).generalize_lit();
    assert!(type_eq(&once, &Ty::kw(Kwd::Number)));
    let twice = once.generalize_lit();
    assert!(type_eq(&twice, &once));
    let mut marked = num_lit(3);
    marked.prevent_generalize();
    let kept = marked.generalize_lit();
    assert!(type_eq(&kept, &num_lit(3)));
}

/// The union constructor flattens and de-duplicates.
#[test]
fn union_constructor_fixes_members() {
    let u = union_from(vec![
        Ty::kw(Kwd::Number),
        Ty::kw(Kwd::Number),
        union_of(vec![Ty::kw(Kwd::Str)]),
    ]);
    let expected = union_from(vec![Ty::kw(Kwd::Number), Ty::kw(Kwd::Str)]);
    assert!(type_eq(&u, &expected));
    let single = union_from(vec![Ty::kw(Kwd::Number), Ty::kw(Kwd::Number)]);
    assert!(type_eq(&single, &Ty::kw(Kwd::Number)));
    let empty = union_from(vec![]);
    assert!(type_eq(&empty, &Ty::kw(Kwd::Never)));
}

/// Merging the empty facts is the identity; the AND-merge runs bitwise on
/// shared keys and keeps one-sided keys whole, in either association.
#[test]
fn cond_facts_merge_is_a_monoid_on_lookups() {
    let mut a = CondFacts::empty();
    a.facts.set(Name::ident(X), FACT_TRUTHY | FACT_NE_NULL);
    a.facts.set(Name::ident(Y), FACT_NE_UNDEFINED);
    let empty = CondFacts::empty();
    let before = a.facts.get(&Name::ident(X));
    a.add(&empty);
    assert_eq!(a.facts.get(&Name::ident(X)), before);
    assert_eq!(a.facts.get(&Name::ident(Y)), Some(FACT_NE_UNDEFINED));

    let mut b = CondFacts::empty();
    b.facts.set(Name::ident(X), FACT_NE_NULL);
    let mut c = CondFacts::empty();
    c.facts.set(Name::ident(X), FACT_NE_NULL | FACT_NE_UNDEFINED);
    c.facts.set(Name::ident(Z), FACT_TRUTHY);

    let mut left = a.clone();
    left.add(&b);
    left.add(&c);
    let mut bc = b.clone();
    bc.add(&c);
    let mut right = a.clone();
    right.add(&bc);
    assert_eq!(left.facts.get(&Name::ident(X)), right.facts.get(&Name::ident(X)));
    assert_eq!(left.facts.get(&Name::ident(Y)), right.facts.get(&Name::ident(Y)));
    assert_eq!(left.facts.get(&Name::ident(Z)), right.facts.get(&Name::ident(Z)));
    assert_eq!(left.facts.get(&Name::ident(X)), Some((FACT_TRUTHY | FACT_NE_NULL) & FACT_NE_NULL & (FACT_NE_NULL | FACT_NE_UNDEFINED)));
}

/// The `typeof` fact table answers the recognized words and nothing else.
#[test]
fn typeof_fact_table() {
    assert!(typeof_eq(SYM_STRING).is_some());
    assert!(typeof_eq(SYM_NUMBER).is_some());
    assert!(typeof_neq(SYM_STRING).is_some());
    assert_eq!(typeof_eq(SYM_FIRST_FREE + 9), None);
    assert_eq!(typeof_neq(SYM_FIRST_FREE + 9), None);
    assert_ne!(typeof_eq(SYM_STRING), typeof_eq(SYM_NUMBER));
}

/// Name extraction walks members, parentheses and assignment targets.
#[test]
fn name_extraction_follows_member_chains() {
    let member = Expr {
        span: sp(),
        kind: ExprKind::Member {
            obj: Box::new(ident(X)),
            prop: Box::new(ident(Y)),
            computed: false,
        },
    };
    let n = extract_name_for_assignment(&member).unwrap();
    assert_eq!(n.len(), 2);
    assert_eq!(n.segment(0), X);
    assert_eq!(n.segment(1), Y);
    let paren = Expr { span: sp(), kind: ExprKind::Paren(Box::new(ident(Z))) };
    let pn = extract_name_for_assignment(&paren).unwrap();
    assert_eq!(pn.len(), 1);
    assert_eq!(pn.segment(0), Z);
    let unnameable = lit(Lit::Num(1));
    assert!(extract_name_for_assignment(&unnameable).is_none());
}

/// Assignment to a `typeof E` query resolves `E` and asks assignability;
/// the `import(..)` form surfaces the unimplemented gap.
#[test]
fn query_assignment_resolves_and_decides() {
    let mut env = Env::new();
    env.vars.set(Name::ident(X), Ty::kw(Kwd::Number));
    let q = QueryExpr::EntityName(vec![X]);
    let ok = assign_to_query_type(&env, &q, &num_lit(3), sp()).unwrap();
    assert!(ok);
    let no = assign_to_query_type(&env, &q, &Ty::kw(Kwd::Str), sp()).unwrap();
    assert!(!no);
    let imp = QueryExpr::Import(X);
    match assign_to_query_type(&env, &imp, &num_lit(3), sp()) {
        Err(Diag::Unimplemented { .. }) => {}
        _ => panic!("import queries must surface Unimplemented"),
    }
}

/// Equality narrowing: a type narrowed against itself stays; a union is
/// narrowed memberwise with `never` members dropped.
#[test]
fn narrow_with_equality_laws_on_values() {
    let t = union_of(vec![Ty::kw(Kwd::Str), Ty::kw(Kwd::Number)]);
    let same = binflow::narrow::narrow_with_equality(&t, &t);
    assert!(type_eq(&same, &t));
    let narrowed = binflow::narrow::narrow_with_equality(&union_of(vec![num_lit(1), num_lit(2)]), &num_lit(1));
    assert!(type_eq(&narrowed, &num_lit(1)));
}
