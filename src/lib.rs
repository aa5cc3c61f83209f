//! Front-end analysis for JavaScript modules: parsing source text into a
//! syntax tree, and extracting the ordered, deduplicated list of module
//! dependencies that a tree declares.
pub mod dependency;
pub mod edge_set;
pub mod parse;
pub mod registry;
pub mod scanner;
mod text;
pub mod tree;

pub use dependency::{ErrorSpan, ModuleDependency, ResolveKind};
pub use edge_set::DependencySet;
pub use parse::{
    build_file_outcome, finish_parse, parse, parse_js, parse_js_code, snippet_outcome, Diagnostic,
    Error, IsModule, ModuleType, TWithDiagnosticArray,
};
pub use registry::OffsetRegistry;
pub use scanner::{is_module_hot_accept_call, scan_dependencies, DependencyScanner};
pub use tree::{CallExpr, Callee, ExportSpecifier, ExprOrSpread, MemberProp, ModuleDecl, Node};
