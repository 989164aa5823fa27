//! A verified model of the managed safety layer around a native,
//! handle-based expression evaluator.
//!
//! The native component compiles a formula against a symbol table and
//! evaluates it; it is reached only through a foreign interface and is not
//! part of this crate. What this crate provides, fully verified, is the
//! managed side of that contract: identifier validation, the symbol table
//! with its typed value slots and category-local identifiers, deep cloning,
//! the decisions of a compile session (the null-byte gate, the
//! unknown-symbol resolution policy), and the translation of the native
//! error record into a structured error value.

mod error;
mod expr;
mod names;
mod strings;
mod table;

pub use error::{spec_kind_from_code, ErrorRecord, InvalidName, ParseError, ParseErrorKind, ParseResult};
pub use expr::{pairs_model, CompileOutcome, Compilation, Expression};
pub use names::{bytes_have_null, c_string, is_valid_name, valid_name};
pub use strings::StringValue;
pub use table::{
    disjoint_names, distinct_names, lemma_clear_variables_idempotent, lemma_fresh_id_reads_back,
    lemma_lookup_id_reads_back, lemma_registration_is_visible, seq_has_name, seq_name_at,
    SymbolTable, TableModel, EPSILON_BITS, INFINITY_BITS, PI_BITS,
};
