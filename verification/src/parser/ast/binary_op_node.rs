//! An operator with its two operands.

use vstd::prelude::*;
use crate::parser::ast::node::{AstNode, AstNodeCore};
use crate::parser::operations::Operations;

verus! {

/// An operator applied to a left and a right operand.
#[derive(Debug)]
pub struct BinaryAstNode {
    pub core: AstNodeCore,
    pub left: Box<AstNode>,
    pub right: Box<AstNode>,
}

impl BinaryAstNode {
    /// The operator of this node.
    pub open spec fn op(&self) -> Operations {
        self.core.op
    }

    /// A node over the two operands, without an operator yet.
    pub fn new(left: Box<AstNode>, right: Box<AstNode>) -> (node: Self)
        ensures
            node.op() == Operations::OpNone,
            node.left == left,
            node.right == right,
    {
        Self { core: AstNodeCore::new(), left, right }
    }

    pub fn get_op(&self) -> (op: Operations)
        ensures
            op == self.op(),
    {
        self.core.op
    }

    pub fn set_op(&mut self, op: Operations)
        ensures
            final(self).op() == op,
            final(self).left == old(self).left,
            final(self).right == old(self).right,
    {
        self.core.op = op;
    }
}

} // verus!
