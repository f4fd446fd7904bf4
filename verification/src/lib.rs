//! Provider-agnostic building blocks for text-generation backends.
//!
//! The crate models three cooperating pieces:
//!
//! - [`llm::stream`]: a dual-mode view of a backend's chunked text response,
//!   consumable chunk by chunk or drained into one concatenated result;
//! - [`llm::tool`]: a name-keyed registry of callable tools with
//!   schema-described arguments and dispatch by name;
//! - [`llm`]: structured generation, which layers a JSON contract on top of
//!   the stream combinators to coerce free text into a parsed value.
//!
//! Every function carries a contract checked by Verus; the few places where
//! outside libraries do the work (JSON parsing, URL values) are isolated in
//! clearly marked trusted declarations.

pub mod image;
pub mod llm;
pub mod text;

pub use llm::LanguageModel;
