//! Documentation extraction over concrete syntax trees: a shape-driven tree
//! walker, an observer contract, a function-signature scanner and a Markdown
//! renderer.

pub mod syntax;
pub mod text;
pub mod extract;
pub mod template_engine;
pub mod markdown;
pub mod printer;
pub mod laws;
