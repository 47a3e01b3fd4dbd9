pub mod ast;
pub mod laws;
pub mod metrics;
pub mod models;
pub mod parser;
pub mod text;
