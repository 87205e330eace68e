//! An export classifier and rewriter for module syntax trees.
//!
//! Given a parsed module, the library inspects every top-level exported
//! variable declaration, routes each declared name into one of three
//! execution-context buckets (page-server, generic server, client) by a fixed
//! naming convention, strips the convention prefix from the name, and replaces
//! the declarator's initializer with a numeric placeholder holding the end
//! offset of the original initializer's source extent.  All other top-level
//! statements pass through unchanged.  Parsing source text into the module
//! model and rendering the transformed model back to source text are left to
//! the caller.

pub mod classify;
pub mod laws;
pub mod model;
pub mod names;

pub use classify::classify;
pub use classify::Classification;
pub use classify::ClassifyError;
pub use model::Binding;
pub use model::DeclKind;
pub use model::ExportVars;
pub use model::Declarator;
pub use model::InitExpr;
pub use model::Module;
pub use model::Stmt;
pub use model::UnsupportedBindingPattern;
pub use names::Bucket;
