pub mod diag;
pub mod document;
pub mod engine;
pub mod grammar;
pub mod hover;
pub mod lint;
pub mod parse;
pub mod query;
pub mod registry;
pub mod store;
pub mod text;
