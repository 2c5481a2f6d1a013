//! HTTP-facing errors with a verified, attribute-driven generator.
//!
//! The crate has two halves that share one data model:
//!
//! * A canonical structured error, [`http_error::HttpError`]: an HTTP status
//!   code, an optional reason text, an optional key/value payload and an
//!   optional wrapped cause, with builder methods to assemble it.
//! * A generator that turns a tagged-union error declaration, annotated with a
//!   small per-variant metadata language (`status(..)`, `reason(..)`,
//!   `data(..)`, `transparent`, plus per-field cause markers), into a
//!   [`generator::GeneratedImpl`]: the validated plan from which every variant
//!   is rendered and converted to the canonical error uniformly.
//!
//! All parsing, validation and evaluation logic is verified; the HTTP status
//! registry is consulted through the `http` crate behind trusted wrappers.

pub mod attr;
pub mod bridge;
pub mod emit;
pub mod entries;
pub mod extension;
pub mod generator;
pub mod http_error;
pub mod json;
pub mod lex;
pub mod resolver;
pub mod response;
pub mod schema;
pub mod status;
pub mod text;
pub mod value;
