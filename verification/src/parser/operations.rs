//! The operators that a node of the tree can carry.

use vstd::prelude::*;

verus! {

/// The operator of a node.
#[derive(Clone, Copy, Debug, PartialEq, Eq, Structural)]
pub enum Operations {
    /// No operator.
    OpNone,
    OpIntAdd,
    OpIntMinus,
    OpIntMul,
    OpIntDiv,
    OpValueInt,
}

impl Operations {
    /// Whether the operator is one of the four of arithmetic.
    pub open spec fn is_arithmetic(self) -> bool {
        self == Operations::OpIntAdd || self == Operations::OpIntMinus || self
            == Operations::OpIntMul || self == Operations::OpIntDiv
    }
}

} // verus!
