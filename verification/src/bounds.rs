//! How a trade request states an amount.

use vstd::prelude::*;

verus! {

/// What a request says about the amount of one side of a trade.
///
/// A caller writes `Unset`, `Desired`, `Min` or `Max`. `Calculated` is written
/// by the engine when it resolves a side that the caller left open.
#[derive(Debug, PartialEq, Eq)]
pub enum Bounds<A> {
    /// Nothing is said; the request can only be examined, not carried out.
    Unset,
    /// Exactly this amount.
    Desired(A),
    /// This amount or more; a floor for what is received.
    Min(A),
    /// This amount or less; a ceiling for what is handed in.
    Max(A),
    /// The amount that the engine resolved.
    Calculated(A),
}

impl<A: Copy> Clone for Bounds<A> {
    fn clone(&self) -> (r: Self)
        ensures
            r == *self,
    {
        *self
    }
}

impl<A: Copy> Copy for Bounds<A> {

}

impl<A: Copy> Bounds<A> {
    /// The amount that the bound carries, if it carries one.
    pub open spec fn spec_value(&self) -> Option<A> {
        match *self {
            Bounds::Unset => None,
            Bounds::Desired(v) => Some(v),
            Bounds::Min(v) => Some(v),
            Bounds::Max(v) => Some(v),
            Bounds::Calculated(v) => Some(v),
        }
    }

    /// Whether nothing is said about the amount.
    #[verifier::when_used_as_spec(spec_is_unset)]
    pub fn is_unset(&self) -> (r: bool)
        ensures
            r == self.spec_is_unset(),
    {
        match self {
            Bounds::Unset => true,
            _ => false,
        }
    }

    /// Whether nothing is said about the amount.
    pub open spec fn spec_is_unset(&self) -> bool {
        *self is Unset
    }

    /// The amount that the bound carries; `None` for `Unset`.
    #[verifier::when_used_as_spec(spec_value)]
    pub fn value(&self) -> (r: Option<A>)
        ensures
            r == self.spec_value(),
    {
        match self {
            Bounds::Unset => None,
            Bounds::Desired(v) => Some(*v),
            Bounds::Min(v) => Some(*v),
            Bounds::Max(v) => Some(*v),
            Bounds::Calculated(v) => Some(*v),
        }
    }
}

} // verus!
