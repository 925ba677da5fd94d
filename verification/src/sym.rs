//! The reserved entries of the symbol intern table.
//!
//! The first few intern ids are fixed: they stand for the words the checker
//! itself must recognize — the strings compared against `typeof`, the two
//! global constructor names whose `instanceof` cannot narrow `any`, and the
//! identifier `undefined`. User symbols start at `SYM_FIRST_FREE`.

use vstd::prelude::*;
use crate::ty::Sym;

verus! {

/// The empty string.
pub const SYM_EMPTY: Sym = 0;

/// The string `"string"`.
pub const SYM_STRING: Sym = 1;

/// The string `"number"`.
pub const SYM_NUMBER: Sym = 2;

/// The string `"boolean"`.
pub const SYM_BOOLEAN: Sym = 3;

/// The string `"object"`.
pub const SYM_OBJECT: Sym = 4;

/// The string `"function"`.
pub const SYM_FUNCTION: Sym = 5;

/// The string `"symbol"`.
pub const SYM_SYMBOL: Sym = 6;

/// The string `"bigint"`.
pub const SYM_BIGINT: Sym = 7;

/// The string `"undefined"`.
pub const SYM_UNDEFINED: Sym = 8;

/// The global constructor name `Object`.
pub const SYM_OBJECT_CLASS: Sym = 9;

/// The global constructor name `Function`.
pub const SYM_FUNCTION_CLASS: Sym = 10;

/// The first intern id free for user symbols.
pub const SYM_FIRST_FREE: Sym = 32;

} // verus!
