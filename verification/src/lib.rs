//! String diagrams as open hypergraphs.
//!
//! A diagram is written in a small notation of sequential composition,
//! parallel placement, named operations and wirings by variable names. It is
//! read into an [`Expr`], translated into an open hypergraph whose wires may
//! still lack a type, and the types are then resolved across the wires that
//! the diagram identifies.

pub mod ast;
pub mod classes;
pub mod error;
pub mod graph;
pub mod inference;
pub mod labels;
pub mod lexer;
pub mod model;
pub mod parser;
pub mod pipeline;
pub mod reading;
pub mod table;
pub mod translate;
pub mod variables;
pub mod wiring;

pub use ast::{Expr, Variable};
pub use error::{TranslationError, TranslationErrorKind};
pub use inference::propagate_object_labels;
pub use labels::{HObject, HOperation, OperationSignature, SignatureTable};
pub use parser::{HExprParser, ParseError};
pub use pipeline::{apply_quotient_if_needed, finalize, parse, PipelineError};
pub use translate::{translate_expr_with_signatures, Translator};
