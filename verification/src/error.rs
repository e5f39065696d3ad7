//! The error a request is answered with when no correct query can be built for it.

use vstd::prelude::*;

verus! {

/// An error for the user who sent the request. It is final: the request is not planned in
/// another way.
#[derive(Debug, PartialEq, Eq)]
pub struct UserError {
    pub message: String,
}

impl View for UserError {
    type V = Seq<char>;

    open spec fn view(&self) -> Seq<char> {
        self.message@
    }
}

/// What a result says: the value, or the message of the error.
pub open spec fn outcome<T: DeepView>(result: Result<T, UserError>) -> Result<T::V, Seq<char>> {
    match result {
        Ok(value) => Ok(value.deep_view()),
        Err(error) => Err(error@),
    }
}

} // verus!
