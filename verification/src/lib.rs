//! Editor-tooling backend for Hydra-style YAML configuration files.
//!
//! A document is scanned for mappings that carry the reserved `_target_`
//! key; each such mapping names a dotted Python symbol and supplies its
//! call arguments as sibling keys.  The library extracts those references
//! with exact source positions, models the referenced Python definition,
//! and validates the supplied arguments against its signature, producing
//! positioned findings.

use vstd::prelude::*;

mod diagnostics;
mod document;
mod laws;
mod positions;
mod python_analyzer;
mod python_ast;
mod resolver;
mod target_extract;
mod text;
mod yaml_parser;
mod yaml_value;

pub use diagnostics::DiagnosticsEngine;
pub use diagnostics::Finding;
pub use diagnostics::FindingCode;
pub use diagnostics::LookupOutcome;
pub use diagnostics::Severity;
pub use document::Document;
pub use target_extract::Em;
pub use target_extract::Parameter;
pub use target_extract::ParamValue;
pub use target_extract::Pm;
pub use target_extract::Pv;
pub use target_extract::TargetInfo;
pub use yaml_parser::CompletionContext;
pub use yaml_parser::Position;
pub use yaml_parser::TargetArena;
pub use yaml_parser::YamlError;
pub use yaml_parser::YamlParser;
pub use yaml_value::YamlKey;
pub use yaml_value::YamlValue;
pub use yaml_value::Yk;
pub use yaml_value::Yv;
pub use python_analyzer::AnalyzerError;
pub use python_analyzer::ClassInfo;
pub use python_analyzer::DefinitionInfo;
pub use python_analyzer::FunctionSignature;
pub use python_analyzer::ParameterInfo;
pub use python_analyzer::PythonAnalyzer;
pub use python_ast::PyBareParam;
pub use python_ast::PyClassDef;
pub use python_ast::PyExpr;
pub use python_ast::PyFunctionDef;
pub use python_ast::PyParam;
pub use python_ast::PyParams;
pub use python_ast::PyStmt;
pub use resolver::first_existing;
pub use resolver::module_candidates;

verus! {

} // verus!
