//! Semantic evaluation of documents.

pub mod binding;
pub mod callables;
pub mod calls;
pub mod collection;
pub mod conformance;
pub mod data_calls;
pub mod diagnostic;
pub mod dictionary;
pub mod dispatch;
pub mod document;
pub mod evaluator;
pub mod growth;
pub mod growth_callables;
pub mod growth_calls;
pub mod growth_content;
pub mod growth_data;
pub mod growth_helpers;
pub mod growth_iteration;
pub mod growth_layout;
pub mod growth_resources;
pub mod growth_sequences;
pub mod growth_values;
pub mod host;
pub mod ir;
pub mod ir_copy;
pub mod ir_equal;
pub mod iteration;
pub mod json;
pub mod laws_access;
pub mod laws_arguments;
pub mod laws_binding;
pub mod laws_bodies;
pub mod laws_builtins;
pub mod laws_calls;
pub mod laws_chains;
pub mod laws_collections;
pub mod laws_conditionals;
pub mod laws_containers;
pub mod laws_data;
pub mod laws_dictionaries;
pub mod laws_dispatch;
pub mod laws_display;
pub mod laws_document;
pub mod laws_entries;
pub mod laws_equality;
pub mod laws_evaluation;
pub mod laws_filters;
pub mod laws_functions;
pub mod laws_general;
pub mod laws_host;
pub mod laws_invocations;
pub mod laws_iteration;
pub mod laws_json;
pub mod laws_kept;
pub mod laws_layout;
pub mod laws_leaves;
pub mod laws_lines;
pub mod laws_native;
pub mod laws_numbers;
pub mod laws_operations;
pub mod laws_plain;
pub mod laws_plain_inlines;
pub mod laws_plain_tables;
pub mod laws_refused;
pub mod laws_reports;
pub mod laws_resources;
pub mod laws_same;
pub mod laws_scope;
pub mod laws_shown;
pub mod laws_sources;
pub mod laws_statements;
pub mod laws_steps;
pub mod laws_tables;
pub mod laws_text;
pub mod laws_transforms;
pub mod laws_values;
pub mod laws_variables;
pub mod laws_worlds;
pub mod layout;
pub mod limits;
pub mod lines;
pub mod materialize;
pub mod metadata;
pub mod native;
pub mod natives;
pub mod number;
pub mod outcome;
pub mod resource_calls;
pub mod resources;
pub mod scope;
pub mod semantics;
pub mod sequences;
pub mod succession;
pub mod target_content;
pub mod text;
pub mod views;
pub mod watch;

pub use document::Progress;
pub use host::{IncludedSource, ResourceAccessError, ResourceText};
pub use limits::{Capabilities, Capability, EvaluationLimits};
pub use metadata::DocumentMetadataDefaults;
pub use semantics::Evaluator;
