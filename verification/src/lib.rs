//! Rewrites the module paths of side-effect-only import declarations.
//!
//! A run takes the import declarations of one source file and a
//! configuration. Where the configuration is switched on, every import
//! declaration that introduces no binding has each occurrence of the
//! configured source string in its path replaced by the configured target
//! string. Nothing else is touched.

pub mod ast;
pub mod config;
pub mod text;
pub mod transform;
pub mod visitor;

pub use ast::{ImportDecl, ImportSpecifier, Program};
pub use config::TransformModuleVisitorConfig;
pub use transform::process_transform;
pub use visitor::TransformModuleVisitor;
