//! Schema-driven source generator: turns a message-contract description into
//! Rust type definitions laid out in a module tree that mirrors the dotted
//! names of the schema.

pub mod ir;
pub mod name;
pub mod code_builder;
pub mod stmt_builder;
pub mod hierarchy;
