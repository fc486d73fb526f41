//! The leaf of the tree: an integer literal.

use vstd::prelude::*;
use crate::parser::operations::Operations;

verus! {

/// An integer literal. It carries no operator.
#[derive(Debug)]
pub struct ValueNode {
    value: i64,
}

impl ValueNode {
    /// The literal.
    pub closed spec fn value(&self) -> i64 {
        self.value
    }

    pub fn new(value: i64) -> (node: Self)
        ensures
            node.value() == value,
    {
        Self { value }
    }

    pub fn get_value(&self) -> (value: i64)
        ensures
            value == self.value(),
    {
        self.value
    }

    /// The operator of a literal, which is none.
    pub fn get_op(&self) -> (op: Operations)
        ensures
            op == Operations::OpNone,
    {
        Operations::OpNone
    }
}

} // verus!
