pub mod instructions;
pub mod machine;
pub mod x86_generator;
