//! The lifecycle state of a promise and the view of its payload.

use vstd::prelude::*;

verus! {

/// The lifecycle of a promise: it starts `PENDING` and moves exactly once to
/// one of the two terminal states, `FULFILLED` or `REJECTED`.
#[derive(PartialEq, Eq, Structural, Clone, Copy, Debug)]
pub enum State {
    PENDING,
    FULFILLED,
    REJECTED,
}

/// Raised by a settlement attempt on a promise that is already terminal:
/// such a call is a no-op beyond this signal.
#[derive(PartialEq, Eq, Structural, Clone, Copy, Debug)]
pub enum SettleError {
    AlreadySettled,
}

/// The mathematical view of a payload: the character sequence carried by a
/// present value, or absence.
pub open spec fn opt_view(p: Option<String>) -> Option<Seq<char>> {
    match p {
        Some(s) => Some(s@),
        None => None,
    }
}

/// A payload rendered to text: a present value is its own text, an absent one
/// is empty text.
pub open spec fn rendered(p: Option<Seq<char>>) -> Seq<char> {
    match p {
        Some(s) => s,
        None => Seq::empty(),
    }
}

} // verus!
