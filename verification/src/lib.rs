//! The evaluation and layout core of a markup document compiler.
//!
//! Two subsystems are covered: the native type registry with its
//! introspectable descriptors, and the structured-list layout engine with its
//! label grammar and cascading style resolution.
pub mod diag;
pub mod label;
pub mod list;
pub mod model;
pub mod numbering;
pub mod registry;
pub mod styles;
pub mod world;
