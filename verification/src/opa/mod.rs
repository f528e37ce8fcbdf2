//! Sandbox network policy: its documents, its preparation for the policy
//! engine, and its evaluation.

pub mod builder;
pub mod builder_laws;
pub mod keys;
pub mod document;
pub mod document_laws;
pub mod document_fields;
pub mod policy;
pub mod normalize;
pub mod normalize_laws;
pub mod preparation_laws;
pub mod diagnostics;
pub mod structure;
pub mod aliases;
pub mod alias_laws;
pub mod binaries;
pub mod rego;
pub mod struct_value;
pub mod evaluation;
pub mod decisions;
pub mod decision_laws;
pub mod chain;
pub mod chain_laws;
pub mod load;
pub mod load_laws;
pub mod engine;
pub mod engine_laws;
pub mod activation;
pub mod binary_laws;
