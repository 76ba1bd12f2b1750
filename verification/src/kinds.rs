//! What every operation of the engines has in common: the classes of failure
//! and the way a call is held against its model.

use vstd::prelude::*;

verus! {

/// The classes of failure.
#[derive(Clone, Copy, Debug, PartialEq, Eq, Structural)]
pub enum ErrorKind {
    /// The request itself is not acceptable; nothing was changed.
    ValidationError,
    /// The caller lacks the role that the call asks for; nothing was changed.
    AuthorizationError,
    /// A transfer that the call depends on did not go through.
    ExternalTransferFailure,
    /// A result does not fit even in the widened intermediate.
    ArithmeticError,
}

/// A call agrees with its model when it returns what the model returns and
/// leaves the state that the model gives; on an error the state is untouched.
pub open spec fn agrees<S, T, E>(pre: S, post: S, model: Result<(S, T), E>, r: Result<T, E>) -> bool {
    match r {
        Ok(out) => model == Ok::<(S, T), E>((post, out)),
        Err(e) => model == Err::<(S, T), E>(e) && post == pre,
    }
}

} // verus!
