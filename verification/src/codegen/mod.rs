pub mod module;
pub mod target;
pub mod x86;
