//! Diagnostics and errors.
//!
//! A `Diag` is one diagnostic; recoverable ones are appended to the
//! analyzer's storage in post-order, and analysis continues with a
//! best-effort type. An `Error` is what short-circuits the validation of an
//! expression: one propagated diagnostic, or the collected diagnostics of
//! failed operands.

use vstd::prelude::*;
use crate::ast::BinOp;
use crate::ast::Span;
use crate::ty::Sym;

verus! {

/// One diagnostic.
#[derive(Clone, Copy, PartialEq, Eq, Structural, Debug)]
pub enum Diag {
    /// An operand has type `unknown` where that is forbidden.
    Unknown { span: Span },
    /// `null` or `undefined` as an operand of `+`.
    TS2365 { span: Span },
    /// No rule gives `+` a result for these operands.
    InvalidBinaryOp { span: Span, op: BinOp },
    /// The compared types share no value.
    NoOverlap { span: Span },
    /// A switch case test that cannot match its discriminant.
    SwitchCaseTestNotCompatible { span: Span },
    /// The left operand cannot be the subject of `instanceof`.
    InvalidLhsInInstanceOf { span: Span },
    /// The right operand of `instanceof` is no constructor.
    InvalidRhsInInstanceOf { span: Span },
    /// The value may be `null`.
    ObjectIsPossiblyNull { span: Span },
    /// The value may be `undefined`.
    ObjectIsPossiblyUndefined { span: Span },
    /// The left operand of a numeric operator is no number.
    WrongTypeForLhsOfNumericOperation { span: Span },
    /// The right operand of a numeric operator is no number.
    WrongTypeForRhsOfNumericOperation { span: Span },
    /// `void` on the left of a logical operator.
    TS1345 { span: Span },
    /// The left operand of `in` is no valid key.
    TS2360 { span: Span },
    /// The right operand of `in` is no object type.
    TS2361 { span: Span },
    /// `&`, `|` or `^` applied to two booleans.
    TS2447 { span: Span },
    /// The operands cannot be compared relationally.
    CannotCompareWithOp { span: Span, op: BinOp },
    /// `??` mixed with `&&` or `||` without parentheses.
    NullishCoalescingMixedWithLogicalWithoutParen { span: Span },
    /// A supported input drives an unimplemented part of the engine:
    /// dotted names of three or more segments, or query assignment
    /// through an `import(..)` form.
    Unimplemented { span: Span },
    /// A type reference that the environment does not define.
    UnresolvedReference { span: Span },
    /// An identifier that the environment does not declare.
    NoSuchVar { span: Span, sym: Sym },
    /// A member access that the object's type does not offer.
    PropertyNotFound { span: Span },
}

/// What short-circuits validation.
#[derive(Debug)]
pub enum Error {
    /// One propagated diagnostic.
    One(Diag),
    /// The diagnostics of operands whose own validation failed.
    Errors { span: Span, errors: Vec<Diag> },
}

impl Error {
    /// The propagated diagnostics, as one sequence.
    pub open spec fn diags(&self) -> Seq<Diag> {
        match self {
            Error::One(d) => seq![*d],
            Error::Errors { errors, .. } => errors@,
        }
    }
}

/// Storage only grows: `b` begins with exactly `a`.
pub open spec fn diags_extended(a: Seq<Diag>, b: Seq<Diag>) -> bool {
    a.len() <= b.len() && forall|i: int| 0 <= i < a.len() ==> a[i] == #[trigger] b[i]
}


/// Ghost mirror of `Error`.
#[verifier::ext_equal]
pub enum ErrorV {
    One(Diag),
    Errors(Span, Seq<Diag>),
}

impl View for Error {
    type V = ErrorV;

    open spec fn view(&self) -> ErrorV {
        match self {
            Error::One(d) => ErrorV::One(*d),
            Error::Errors { span, errors } => ErrorV::Errors(*span, errors@),
        }
    }
}

impl ErrorV {
    /// The propagated diagnostics, as one sequence.
    pub open spec fn diags(self) -> Seq<Diag> {
        match self {
            ErrorV::One(d) => seq![d],
            ErrorV::Errors(_, ds) => ds,
        }
    }
}

/// Append an error's diagnostics to a collection list.
pub fn collect_error(errors: &mut Vec<Diag>, e: Error)
    ensures final(errors)@ == old(errors)@ + e.diags(),
{
    match e {
        Error::One(d) => {
            errors.push(d);
            proof {
                assert(errors@ =~= old(errors)@ + Error::One(d).diags());
            }
        },
        Error::Errors { errors: ds, .. } => {
            let ghost dsv = ds@;
            let mut i: usize = 0;
            while i < ds.len()
                invariant
                    i <= ds.len(),
                    ds@ == dsv,
                    errors@ == old(errors)@ + dsv.take(i as int),
                decreases dsv.len() - i as int,
            {
                errors.push(ds[i]);
                proof {
                    assert(dsv.take(i as int + 1) =~= dsv.take(i as int).push(dsv[i as int]));
                    assert(errors@ =~= old(errors)@ + dsv.take(i as int + 1));
                }
                i = i + 1;
            }
            proof {
                assert(dsv.take(dsv.len() as int) =~= dsv);
            }
        },
    }
}


/// Append every diagnostic of `src` to `dst`.
pub fn push_all(dst: &mut Vec<Diag>, src: &Vec<Diag>)
    ensures final(dst)@ == old(dst)@ + src@,
{
    let ghost sv = src@;
    let mut i: usize = 0;
    while i < src.len()
        invariant
            i <= src.len(),
            dst@ == old(dst)@ + sv.take(i as int),
        decreases sv.len() - i as int,
    {
        dst.push(src[i]);
        proof {
            assert(sv.take(i as int + 1) =~= sv.take(i as int).push(sv[i as int]));
            assert(dst@ =~= old(dst)@ + sv.take(i as int + 1));
        }
        i = i + 1;
    }
    proof {
        assert(sv.take(sv.len() as int) =~= sv);
    }
}

} // verus!
