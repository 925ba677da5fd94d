//! The expression model the checker reads: binary expressions, their
//! operands, and the extraction of dotted names from assignment targets.

use vstd::prelude::*;
use crate::facts::Name;
use crate::ty::Sym;

verus! {

/// A source span.
#[derive(Clone, Copy, PartialEq, Eq, Structural, Debug)]
pub struct Span {
    pub lo: u32,
    pub hi: u32,
}

/// The binary operators.
#[derive(Clone, Copy, PartialEq, Eq, Structural, Debug)]
pub enum BinOp {
    EqEqEq,
    NotEqEq,
    EqEq,
    NotEq,
    Lt,
    LtEq,
    Gt,
    GtEq,
    LShift,
    RShift,
    ZeroFillRShift,
    Plus,
    Minus,
    Mul,
    Div,
    Mod,
    BitOr,
    BitXor,
    BitAnd,
    Exp,
    LogicalOr,
    LogicalAnd,
    NullishCoalescing,
    In,
    InstanceOf,
}

/// The one unary operator the checker reads.
#[derive(Clone, Copy, PartialEq, Eq, Structural, Debug)]
pub enum UnaryOp {
    Typeof,
}

/// Literal expressions. String values are interned symbols.
#[derive(Clone, Copy, PartialEq, Eq, Structural, Debug)]
pub enum Lit {
    Str(Sym),
    Num(i64),
    Bool(bool),
    Null,
    BigInt(i64),
}

/// An expression.
pub struct Expr {
    pub span: Span,
    pub kind: ExprKind,
}

/// The expression shapes the checker distinguishes.
pub enum ExprKind {
    Ident(Sym),
    Lit(Lit),
    /// A template literal; the cooked values of its quasis.
    Tpl(Vec<Sym>),
    Unary(UnaryOp, Box<Expr>),
    Bin(Box<BinExpr>),
    Paren(Box<Expr>),
    Assign(AssignTarget, Box<Expr>),
    Member { obj: Box<Expr>, prop: Box<Expr>, computed: bool },
}

/// The left side of an assignment.
pub enum AssignTarget {
    /// An identifier pattern.
    Pat(Sym),
    /// Any other pattern shape; no name can be extracted from it.
    PatOther,
    /// An expression target.
    Expr(Box<Expr>),
}

/// A binary expression `left op right`.
pub struct BinExpr {
    pub span: Span,
    pub op: BinOp,
    pub left: Box<Expr>,
    pub right: Box<Expr>,
}

impl BinOp {
    /// The four equality operators.
    pub open spec fn is_equality(self) -> bool {
        self == BinOp::EqEqEq || self == BinOp::NotEqEq || self == BinOp::EqEq || self == BinOp::NotEq
    }

    /// The strict or loose equality operators, as opposed to disequality.
    pub open spec fn is_eq_sense(self) -> bool {
        self == BinOp::EqEqEq || self == BinOp::EqEq
    }

    /// The numeric operators other than `+`.
    pub open spec fn is_numeric(self) -> bool {
        ||| self == BinOp::Mul
        ||| self == BinOp::Div
        ||| self == BinOp::Mod
        ||| self == BinOp::Minus
        ||| self == BinOp::LShift
        ||| self == BinOp::RShift
        ||| self == BinOp::ZeroFillRShift
        ||| self == BinOp::BitOr
        ||| self == BinOp::BitXor
        ||| self == BinOp::BitAnd
        ||| self == BinOp::Exp
    }

    /// The relational comparison operators.
    pub open spec fn is_relational(self) -> bool {
        self == BinOp::Lt || self == BinOp::LtEq || self == BinOp::Gt || self == BinOp::GtEq
    }
}

/// The dotted name an expression stands for when it is the target of an
/// assignment or a narrowing: identifiers, member chains with identifier or
/// literal-string properties, through parentheses and assignments.
pub open spec fn extract_name_v(e: Expr) -> Option<Seq<Sym>>
    decreases e,
{
    match e.kind {
        ExprKind::Ident(s) => Some(seq![s]),
        ExprKind::Paren(inner) => extract_name_v(*inner),
        ExprKind::Assign(tgt, _) => match tgt {
            AssignTarget::Pat(s) => Some(seq![s]),
            AssignTarget::PatOther => None,
            AssignTarget::Expr(inner) => extract_name_v(*inner),
        },
        ExprKind::Member { obj, prop, computed } => match extract_name_v(*obj) {
            None => None,
            Some(n) => match prop.kind {
                ExprKind::Ident(s) => if !computed {
                    Some(n.push(s))
                } else {
                    None
                },
                ExprKind::Lit(Lit::Str(s)) => if computed {
                    Some(n.push(s))
                } else {
                    None
                },
                _ => None,
            },
        },
        _ => None,
    }
}

/// Extract the dotted name an expression stands for, where one exists.
pub fn extract_name_for_assignment(e: &Expr) -> (r: Option<Name>)
    ensures
        match r {
            Some(n) => extract_name_v(*e) == Some(n@) && n.wf(),
            None => extract_name_v(*e) is None,
        },
    decreases *e,
{
    proof {
        assert(decreases_to!(*e => e.kind));
    }
    match &e.kind {
        ExprKind::Ident(s) => Some(Name::ident(*s)),
        ExprKind::Paren(inner) => {
            proof {
                assert(decreases_to!(e.kind => e.kind->Paren_0));
            }
            extract_name_for_assignment(inner)
        },
        ExprKind::Assign(tgt, _) => match tgt {
            AssignTarget::Pat(s) => Some(Name::ident(*s)),
            AssignTarget::PatOther => None,
            AssignTarget::Expr(inner) => {
                proof {
                    assert(decreases_to!(e.kind => e.kind->Assign_0));
                    assert(decreases_to!(e.kind->Assign_0 => e.kind->Assign_0->Expr_0));
                }
                extract_name_for_assignment(inner)
            },
        },
        ExprKind::Member { obj, prop, computed } => {
            proof {
                assert(decreases_to!(e.kind => e.kind->Member_obj));
            }
            match extract_name_for_assignment(obj) {
                None => None,
                Some(mut n) => {
                    match &prop.kind {
                        ExprKind::Ident(s) => {
                            if !*computed {
                                n.push(*s);
                                Some(n)
                            } else {
                                None
                            }
                        },
                        ExprKind::Lit(Lit::Str(s)) => {
                            if *computed {
                                n.push(*s);
                                Some(n)
                            } else {
                                None
                            }
                        },
                        _ => None,
                    }
                },
            }
        },
        _ => None,
    }
}

} // verus!
