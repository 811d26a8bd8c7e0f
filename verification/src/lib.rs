//! An interface-definition-language toolchain: the syntax tree of a namespace
//! of versioned interfaces, data types, enums, flag sets and extensions, the
//! lowering pass that normalises such a tree, and the Markdown pages that
//! describe the normalised tree.

pub mod ast;
pub mod docs;
pub mod eval;
pub mod hir;
pub mod markdown;
pub mod text;
pub mod vfs;
