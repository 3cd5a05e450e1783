//! A value of one of two types.

use vstd::prelude::*;

verus! {

/// One of two alternatives, by analogy with a sum type.
pub enum Either<A, B> {
    Left(A),
    Right(B),
}

impl<A, B> Either<A, B> {
    /// The left value.  A caller must know the value is a `Left`:
    /// asking a `Right` for its left value is a program error, not
    /// an input.
    pub fn unwrap_left(self) -> (r: A)
        requires
            self is Left,
        ensures
            r == self->Left_0,
    {
        match self {
            Either::Left(left) => left,
            Either::Right(_right) => vstd::pervasive::unreached(),
        }
    }

    /// The right value.  A caller must know the value is a `Right`.
    pub fn unwrap_right(self) -> (r: B)
        requires
            self is Right,
        ensures
            r == self->Right_0,
    {
        match self {
            Either::Right(right) => right,
            Either::Left(_left) => vstd::pervasive::unreached(),
        }
    }
}

} // verus!
