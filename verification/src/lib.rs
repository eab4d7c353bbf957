//! Building blocks of a small HTTP endpoint router: attribute parsing for
//! endpoint declarations, request dispatch, asset tables, response bodies and
//! client-side fetch bookkeeping.
use vstd::prelude::*;

pub mod add_app;
pub mod assets;
pub mod attrs;
pub mod body;
pub mod codegen;
pub mod fetch;
pub mod json;
pub mod naming;
pub mod routing;
pub mod sum_app;
pub mod text;

verus! {

} // verus!
