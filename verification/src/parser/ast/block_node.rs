//! A sequence of statements.

use vstd::prelude::*;
use crate::parser::ast::node::AstNode;
use crate::parser::operations::Operations;

verus! {

/// The statements of a block, in order. A block carries no operator.
#[derive(Debug)]
pub struct BlockNode {
    pub block: Vec<Box<AstNode>>,
}

impl BlockNode {
    pub fn new(block: Vec<Box<AstNode>>) -> (node: Self)
        ensures
            node.block == block,
    {
        Self { block }
    }

    /// The operator of a block, which is none.
    pub fn get_op(&self) -> (op: Operations)
        ensures
            op == Operations::OpNone,
    {
        Operations::OpNone
    }
}

} // verus!
