//! Verified core of the waldur-cli generator.
//!
//! The OpenAPI schema of a Waldur deployment and a command manifest go in; the
//! source files, the command schema and the reference pages of waldur-cli come out.
//! Reading and writing files is left to the binary around this library.
pub mod codegen;
pub mod codegen_error;
pub mod codegen_laws;
pub mod command_laws;
pub mod command_schema_laws;
pub mod description_laws;
pub mod determinism_laws;
pub mod end_to_end_laws;
pub mod error;
pub mod extract;
pub mod extraction_laws;
pub mod failure_laws;
pub mod index_laws;
pub mod json;
pub mod json_schema;
pub mod manifest;
pub mod method_laws;
pub mod node_laws;
pub mod order;
pub mod output_laws;
pub mod page_laws;
pub mod pipeline;
pub mod pipeline_laws;
pub mod preparation_laws;
pub mod reference_docs;
pub mod reference_laws;
pub mod reference_pages;
pub mod rust_text;
pub mod schema;
pub mod schema_codegen;
pub mod schema_laws;
pub mod skeleton;
pub mod table;
pub mod template_laws;
pub mod templates;
pub mod text;
pub mod text_laws;
pub mod verb_codegen;
