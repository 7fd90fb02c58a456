//! First-order syntactic unification of symbolic expressions built from
//! logic variables, integer values and lists.

use vstd::prelude::*;

pub mod bindings;
pub mod expr;
pub mod laws;
pub mod unify;

pub use bindings::{bindings_to_string, extend_bindings, Bindings};
pub use expr::{Expr, Term};
pub use unify::{empty, unify, unify_lists, Unification};

verus! {

} // verus!
