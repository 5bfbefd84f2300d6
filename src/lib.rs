//! Configuration and policy model of a declarative API gateway: a YAML value
//! tree, a tolerant parser from that tree to definitions and policy trees, the
//! operation dispatch rule, and the per-request execution rules.

pub mod yaml;
pub mod text;
pub mod policy;
pub mod definition;
pub mod parse;
pub mod tree;
pub mod load;
pub mod dispatch;
pub mod engine;
pub mod walk;
