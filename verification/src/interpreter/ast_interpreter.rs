//! The walk over the tree that drives a code generator.

use vstd::prelude::*;
use crate::codegen::target::{CodeGen, Emitted, GeneratorView, RegLoadable};
use crate::common::errors::error::{plain_result_view, CompilerErrorKind, ErrorView};
use crate::parser::ast::node::{AstNode, Tree};
use crate::parser::operations::Operations;
use crate::parser::parser::lemma_trees_of_index;

verus! {

/// The message for a node that is no expression where one must stand.
pub open spec fn unknown_node_message() -> Seq<char> {
    "Unknown node type"@
}

/// The message for a binary node whose operator is none of the four.
pub open spec fn unsupported_operator_message() -> Seq<char> {
    "Unsupported operator"@
}

/// The message for a block that does not hold exactly one statement.
pub open spec fn single_statement_message() -> Seq<char> {
    "Expected a single statement"@
}

/// The code of an expression on the target `G`, emitted from the state `g`
/// on, and the register that holds its value. The left operand of a binary
/// node is evaluated first and keeps its register while the right operand is
/// evaluated; the first failure ends the walk.
pub open spec fn expression_code<G: CodeGen>(g: GeneratorView, tree: Tree) -> Emitted<usize>
    decreases tree,
{
    match tree {
        Tree::Value(value) => G::load(g, value.gnu_x86_text()),
        Tree::Binary(op, left, right) => {
            let first = expression_code::<G>(g, *left);
            match first.result {
                Err(e) => Emitted { state: first.state, result: Err(e) },
                Ok(reg1) => {
                    let second = expression_code::<G>(first.state, *right);
                    match second.result {
                        Err(e) => Emitted { state: second.state, result: Err(e) },
                        Ok(reg2) => match op {
                            Operations::OpIntAdd => G::add(second.state, reg1, reg2),
                            Operations::OpIntMinus => G::sub(second.state, reg1, reg2),
                            Operations::OpIntMul => G::mul(second.state, reg1, reg2),
                            Operations::OpIntDiv => G::div(second.state, reg1, reg2),
                            _ => Emitted {
                                state: second.state,
                                result: Err(
                                    ErrorView::CodeGeneratorError(unsupported_operator_message()),
                                ),
                            },
                        },
                    }
                },
            }
        },
        _ => Emitted { state: g, result: Err(ErrorView::InternalError(unknown_node_message())) },
    }
}

/// The expression that a program prints: the expression itself, the
/// expression of a print statement, or that of the one statement of a block.
pub open spec fn printed_expression(tree: Tree) -> Result<Tree, ErrorView> {
    match tree {
        Tree::Block(statements) => if statements.len() == 1 {
            match statements[0] {
                Tree::Print(_, expr) => Ok(*expr),
                Tree::Block(_) => Err(ErrorView::InternalError(unknown_node_message())),
                other => Ok(other),
            }
        } else {
            Err(ErrorView::InternalError(single_statement_message()))
        },
        Tree::Print(_, expr) => Ok(*expr),
        other => Ok(other),
    }
}

/// The code of a program on the target `G`, emitted from the state `g` on:
/// what stands before, the code of the printed expression, the printing of
/// its register, and what stands behind. The first failure ends it.
pub open spec fn program_code<G: CodeGen>(g: GeneratorView, tree: Tree) -> Emitted<()> {
    let opened = G::pre_amble(g);
    match opened.result {
        Err(e) => Emitted { state: opened.state, result: Err(e) },
        Ok(_) => match printed_expression(tree) {
            Err(e) => Emitted { state: opened.state, result: Err(e) },
            Ok(expr) => {
                let value = expression_code::<G>(opened.state, expr);
                match value.result {
                    Err(e) => Emitted { state: value.state, result: Err(e) },
                    Ok(reg) => {
                        let printed = G::printreg(value.state, reg);
                        match printed.result {
                            Err(e) => Emitted { state: printed.state, result: Err(e) },
                            Ok(_) => G::post_amble(printed.state),
                        }
                    },
                }
            },
        },
    }
}

/// Drives a code generator over a tree.
pub struct ASTInterpreter<T> where T: CodeGen {
    generator: Box<T>,
}

impl<T> ASTInterpreter<T> where T: CodeGen {
    /// The state of the generator.
    pub closed spec fn state(&self) -> GeneratorView {
        self.generator.state()
    }

    /// The generator can be used.
    pub closed spec fn wf(&self) -> bool {
        self.generator.wf()
    }

    pub fn new(generator: Box<T>) -> (interpreter: ASTInterpreter<T>)
        requires
            generator.wf(),
        ensures
            interpreter.wf(),
            interpreter.state() == generator.state(),
    {
        ASTInterpreter { generator }
    }

    /// The generator with what it has emitted.
    pub fn into_generator(self) -> (generator: Box<T>)
        ensures
            generator.wf() == self.wf(),
            generator.state() == self.state(),
    {
        self.generator
    }

    /// Emits the whole program for `ast`.
    pub fn interpret(&mut self, ast: &AstNode) -> (r: Result<(), CompilerErrorKind>)
        requires
            old(self).wf(),
        ensures
            final(self).wf(),
            program_code::<T>(old(self).state(), ast@) == (Emitted {
                state: final(self).state(),
                result: plain_result_view(r),
            }),
    {
        match self.generator.cg_pre_amble() {
            Ok(_) => {},
            Err(e) => {
                return Err(e);
            },
        }
        let expr: &AstNode = match ast {
            AstNode::Block(node) => {
                proof {
                    lemma_trees_of_index(node.block@);
                }
                if node.block.len() == 1 {
                    match &*node.block[0] {
                        AstNode::Print(statement) => &*statement.expr,
                        AstNode::Block(_) => {
                            return Err(
                                CompilerErrorKind::InternalError("Unknown node type".to_owned()),
                            );
                        },
                        other => other,
                    }
                } else {
                    return Err(
                        CompilerErrorKind::InternalError("Expected a single statement".to_owned()),
                    );
                }
            },
            AstNode::Print(statement) => &*statement.expr,
            other => other,
        };
        let reg = match self.do_interpret(expr) {
            Ok(reg) => reg,
            Err(e) => {
                return Err(e);
            },
        };
        match self.generator.cg_printreg(reg) {
            Ok(_) => {},
            Err(e) => {
                return Err(e);
            },
        }
        self.generator.cg_post_amble()
    }

    /// Emits the code of the expression `ast`; gives the register of its value.
    fn do_interpret(&mut self, ast: &AstNode) -> (r: Result<usize, CompilerErrorKind>)
        requires
            old(self).wf(),
        ensures
            final(self).wf(),
            expression_code::<T>(old(self).state(), ast@) == (Emitted {
                state: final(self).state(),
                result: plain_result_view(r),
            }),
            r matches Ok(reg) ==> reg < 4,
        decreases ast,
    {
        match ast {
            AstNode::Binary(binary_node) => {
                let operator = binary_node.get_op();
                let reg1 = match self.do_interpret(&*binary_node.left) {
                    Ok(reg) => reg,
                    Err(e) => {
                        return Err(e);
                    },
                };
                let reg2 = match self.do_interpret(&*binary_node.right) {
                    Ok(reg) => reg,
                    Err(e) => {
                        return Err(e);
                    },
                };

                match operator {
                    Operations::OpIntAdd => self.generator.cg_add(reg1, reg2),
                    Operations::OpIntMinus => self.generator.cg_sub(reg1, reg2),
                    Operations::OpIntMul => self.generator.cg_mul(reg1, reg2),
                    Operations::OpIntDiv => self.generator.cg_div(reg1, reg2),
                    _ => Err(CompilerErrorKind::CodeGeneratorError("Unsupported operator".to_owned())),
                }
            },
            AstNode::Value(value_node) => self.generator.cg_load(value_node.get_value()),
            _ => Err(CompilerErrorKind::InternalError("Unknown node type".to_owned())),
        }
    }
}

} // verus!
