#![verifier::loop_isolation(false)]
//! A verified core for a small API-description language: a lexer, a
//! recursive-descent parser, an OpenAPI adapter, an import resolver/merger,
//! and a projection engine that flattens the resulting document tree into
//! linear endpoint and category views.

pub mod strutil;
pub mod numfmt;
pub mod ast;
pub mod cloning;
pub mod lexer;
pub mod parser;
pub mod project;
pub mod openapi;
pub mod resolve;
