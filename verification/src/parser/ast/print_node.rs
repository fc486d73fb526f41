//! The statement that prints the value of an expression.

use vstd::prelude::*;
use crate::parser::ast::node::{AstNode, AstNodeCore};
use crate::parser::operations::Operations;

verus! {

/// An expression whose value is to be printed.
#[derive(Debug)]
pub struct PrintAstNode {
    pub core: AstNodeCore,
    pub expr: Box<AstNode>,
}

impl PrintAstNode {
    /// The operator of this node.
    pub open spec fn op(&self) -> Operations {
        self.core.op
    }

    /// A node over the expression, without an operator.
    pub fn new(expr: Box<AstNode>) -> (node: Self)
        ensures
            node.op() == Operations::OpNone,
            node.expr == expr,
    {
        Self { core: AstNodeCore::new(), expr }
    }

    pub fn get_op(&self) -> (op: Operations)
        ensures
            op == self.op(),
    {
        self.core.op
    }

    pub fn set_op(&mut self, op: Operations)
        ensures
            final(self).op() == op,
            final(self).expr == old(self).expr,
    {
        self.core.op = op;
    }
}

} // verus!
