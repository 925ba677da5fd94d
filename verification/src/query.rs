//! Assignment to and from `typeof E` query types: resolve the queried
//! entity and redirect the assignability question to the resolved type.
//! The `import(..)` form of a query is out of scope and surfaces as
//! `Unimplemented`.

use vstd::prelude::*;
use crate::ast::Span;
use crate::diag::Diag;
use crate::env::Env;
use crate::env::assignable;
use crate::env::assignable_v;
use crate::env::resolve_typeof;
use crate::env::resolve_typeof_v;
use crate::ty::QueryExpr;
use crate::ty::Ty;
use crate::ty::TyV;
use crate::ty_ops::normalize_v;

verus! {

/// Whether a value may be assigned to a `typeof E` type: resolve `E` and
/// ask the assignability fragment, the right side normalized first.
pub open spec fn assign_to_query_type_v(env: Env, to: crate::ty::QueryV, rhs: TyV, span: Span)
    -> Result<bool, Diag> {
    match to {
        crate::ty::QueryV::EntityName(ids) => match resolve_typeof_v(env, ids, span) {
            Ok(t) => Ok(assignable_v(t, normalize_v(rhs))),
            Err(d) => Err(d),
        },
        crate::ty::QueryV::Import(_) => Err(Diag::Unimplemented { span }),
    }
}

/// Decide assignment to a `typeof E` query type.
pub fn assign_to_query_type(env: &Env, to: &QueryExpr, rhs: &Ty, span: Span) -> (r: Result<bool, Diag>)
    ensures
        match r {
            Ok(b) => assign_to_query_type_v(*env, crate::ty::query_view(*to), rhs@, span)
                == Ok::<bool, Diag>(b),
            Err(d) => assign_to_query_type_v(*env, crate::ty::query_view(*to), rhs@, span)
                == Err::<bool, Diag>(d),
        },
{
    let rn = rhs.normalize();
    match to {
        QueryExpr::EntityName(ids) => {
            match resolve_typeof(env, ids, span) {
                Ok(t) => Ok(assignable(&t, &rn)),
                Err(d) => Err(d),
            }
        },
        QueryExpr::Import(_) => Err(Diag::Unimplemented { span }),
    }
}

/// Whether a `typeof E` query type may be assigned to another type: the
/// left side normalized, `E` resolved, and the fragment asked.
pub open spec fn assign_from_query_type_v(env: Env, to: TyV, rhs: crate::ty::QueryV, span: Span)
    -> Result<bool, Diag> {
    match rhs {
        crate::ty::QueryV::EntityName(ids) => match resolve_typeof_v(env, ids, span) {
            Ok(t) => Ok(assignable_v(normalize_v(to), t)),
            Err(d) => Err(d),
        },
        crate::ty::QueryV::Import(_) => Err(Diag::Unimplemented { span }),
    }
}

/// Decide assignment from a `typeof E` query type.
pub fn assign_from_query_type(env: &Env, to: &Ty, rhs: &QueryExpr, span: Span) -> (r: Result<bool, Diag>)
    ensures
        match r {
            Ok(b) => assign_from_query_type_v(*env, to@, crate::ty::query_view(*rhs), span)
                == Ok::<bool, Diag>(b),
            Err(d) => assign_from_query_type_v(*env, to@, crate::ty::query_view(*rhs), span)
                == Err::<bool, Diag>(d),
        },
{
    let tn = to.normalize();
    match rhs {
        QueryExpr::EntityName(ids) => {
            match resolve_typeof(env, ids, span) {
                Ok(t) => Ok(assignable(&tn, &t)),
                Err(d) => Err(d),
            }
        },
        QueryExpr::Import(_) => Err(Diag::Unimplemented { span }),
    }
}

} // verus!
