//! Structured, chainable error records with a stable numeric wire encoding.
//!
//! The central type is [`record::WidError`]: one failure occurrence, classified
//! by closed enums ([`codes::Kind`], [`codes::Scope`], [`codes::RetryMode`],
//! [`codes::PassThroughMode`]) whose wire values are fixed integers, carrying a
//! numeric code, a symbolic name, a severity level, an external mapping code,
//! and an optional owned cause record. Records render to a single line of text
//! and round-trip through a canonical JSON encoding in which every enum appears
//! as its integer discriminant.

pub mod codes;
pub mod record;
pub mod textfmt;
pub mod render;
pub mod json;
pub mod decode;
