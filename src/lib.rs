//! Lowering of a parsed source file's items into a flat, canonical item tree.
pub mod attrs;
pub mod paths;
pub mod visibility;
pub mod use_tree;
pub mod generics;
pub mod items;
pub mod tree;
pub mod print;
