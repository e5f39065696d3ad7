//! Contracts about functions that a caller hands in.
//!
//! Translating an expression tree into a SQL dialect, naming the Exasol type of a data type and
//! the like are not done here: the functions of this crate are handed a function for each. A
//! contract then speaks of every mathematical function that the handed one computes.

use crate::error::{outcome, UserError};
use vstd::prelude::*;

verus! {

/// `f` can be called with every argument.
pub open spec fn callable<A, B, F: Fn(&A) -> B>(f: F) -> bool {
    forall|x: &A| #[trigger] f.requires((x,))
}

/// Whatever `f` returns for an argument is what `g` says of it.
pub open spec fn computes<A: DeepView, B: DeepView, F: Fn(&A) -> B>(
    f: F,
    g: spec_fn(A::V) -> B::V,
) -> bool {
    forall|x: &A, r: B| #[trigger] f.ensures((x,), r) ==> r.deep_view() == g(x.deep_view())
}

/// `f` can be called with every pair of arguments.
pub open spec fn callable_with<A, B, C, F: Fn(&A, &B) -> C>(f: F) -> bool {
    forall|x: &A, y: &B| #[trigger] f.requires((x, y))
}

/// Whatever `f` returns for two arguments is what `g` says of them.
pub open spec fn computes_with<A: DeepView, B: DeepView, C: DeepView, F: Fn(&A, &B) -> C>(
    f: F,
    g: spec_fn(A::V, B::V) -> C::V,
) -> bool {
    forall|x: &A, y: &B, r: C| #[trigger]
        f.ensures((x, y), r) ==> r.deep_view() == g(x.deep_view(), y.deep_view())
}

/// Whatever `f` returns for two arguments, a value or an error, is what `g` says of them.
pub open spec fn answers_with<
    A: DeepView,
    B: DeepView,
    C: DeepView,
    F: Fn(&A, &B) -> Result<C, UserError>,
>(f: F, g: spec_fn(A::V, B::V) -> Result<C::V, Seq<char>>) -> bool {
    forall|x: &A, y: &B, r: Result<C, UserError>| #[trigger]
        f.ensures((x, y), r) ==> outcome(r) == g(x.deep_view(), y.deep_view())
}

} // verus!
