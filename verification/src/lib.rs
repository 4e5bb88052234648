//! A compile-time translator core for an embedded markup language: HTML-like
//! tags, attributes, event-handler bindings, text runs and interpolated
//! expression groups, parsed from a flat lexical token sequence into a
//! structured intermediate representation for a UI code-generation backend.
//!
//! Parsing is purely functional recursive descent with ordered-alternation
//! backtracking over an immutable token sequence; every executable parser is
//! proved equivalent to a specification-level grammar function.

pub mod attributes;
pub mod component;
pub mod grammar;
pub mod ir;
pub mod laws;
pub mod matchers;
pub mod reduce;
pub mod tokens;
