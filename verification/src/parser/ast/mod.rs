pub mod binary_op_node;
pub mod block_node;
pub mod node;
pub mod print_node;
pub mod value_node;
