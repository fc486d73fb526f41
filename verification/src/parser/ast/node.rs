//! The abstract syntax tree: a closed set of node kinds.

use vstd::prelude::*;
use crate::parser::ast::binary_op_node::BinaryAstNode;
use crate::parser::ast::block_node::BlockNode;
use crate::parser::ast::print_node::PrintAstNode;
use crate::parser::ast::value_node::ValueNode;
use crate::parser::operations::Operations;

verus! {

/// The operator slot of a node that can carry an operator.
#[derive(Clone, Copy, Debug)]
pub struct AstNodeCore {
    pub op: Operations,
}

impl AstNodeCore {
    /// A slot without an operator.
    pub fn new() -> (core: Self)
        ensures
            core.op == Operations::OpNone,
    {
        Self { op: Operations::OpNone }
    }
}

/// A node of the tree. Each node owns its children.
#[derive(Debug)]
pub enum AstNode {
    /// An integer literal.
    Value(ValueNode),
    /// An operator applied to two operands.
    Binary(BinaryAstNode),
    /// A sequence of statements.
    Block(BlockNode),
    /// An expression whose value is printed.
    Print(PrintAstNode),
}

/// The mathematical content of a tree.
pub enum Tree {
    Value(i64),
    Binary(Operations, Box<Tree>, Box<Tree>),
    Block(Seq<Tree>),
    Print(Operations, Box<Tree>),
}

/// The trees of a sequence of nodes, in order.
pub open spec fn trees_of(nodes: Seq<Box<AstNode>>) -> Seq<Tree>
    decreases nodes,
{
    if nodes.len() == 0 {
        Seq::empty()
    } else {
        trees_of(nodes.drop_last()).push(tree_of(*nodes.last()))
    }
}

/// The tree that a node and the nodes below it stand for.
pub open spec fn tree_of(node: AstNode) -> Tree
    decreases node,
{
    match node {
        AstNode::Value(node) => Tree::Value(node.value()),
        AstNode::Binary(node) => Tree::Binary(
            node.op(),
            Box::new(tree_of(*node.left)),
            Box::new(tree_of(*node.right)),
        ),
        AstNode::Block(node) => Tree::Block(trees_of(node.block@)),
        AstNode::Print(node) => Tree::Print(node.op(), Box::new(tree_of(*node.expr))),
    }
}

impl View for AstNode {
    type V = Tree;

    open spec fn view(&self) -> Tree {
        tree_of(*self)
    }
}

impl Tree {
    /// Whether the tree is an expression: a tree of values and arithmetic
    /// operations.
    pub open spec fn is_expression(self) -> bool
        decreases self,
    {
        match self {
            Tree::Value(_) => true,
            Tree::Binary(op, left, right) => op.is_arithmetic() && left.is_expression()
                && right.is_expression(),
            _ => false,
        }
    }

    /// The operator of the node at the root: a value and a block have none.
    pub open spec fn op(self) -> Operations {
        match self {
            Tree::Value(_) => Operations::OpNone,
            Tree::Binary(op, _, _) => op,
            Tree::Block(_) => Operations::OpNone,
            Tree::Print(op, _) => op,
        }
    }

    /// The tree with the operator `op` at its root (for a node that can carry one).
    pub open spec fn with_op(self, op: Operations) -> Tree {
        match self {
            Tree::Binary(_, left, right) => Tree::Binary(op, left, right),
            Tree::Print(_, expr) => Tree::Print(op, expr),
            other => other,
        }
    }
}

impl AstNode {
    /// The operator of this node.
    pub fn get_op(&self) -> (op: Operations)
        ensures
            op == self@.op(),
    {
        match self {
            AstNode::Value(node) => node.get_op(),
            AstNode::Binary(node) => node.get_op(),
            AstNode::Block(node) => node.get_op(),
            AstNode::Print(node) => node.get_op(),
        }
    }

    /// Gives this node the operator `op`; only a binary node and a print node
    /// can carry one.
    pub fn set_op(&mut self, op: Operations)
        requires
            old(self)@ is Binary || old(self)@ is Print,
        ensures
            final(self)@ == old(self)@.with_op(op),
    {
        match self {
            AstNode::Binary(node) => {
                node.set_op(op);
            },
            AstNode::Print(node) => {
                node.set_op(op);
            },
            _ => {},
        }
    }
}

} // verus!
