pub mod text;
pub mod trie;
