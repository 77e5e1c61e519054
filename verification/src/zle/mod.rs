pub mod engine;
pub mod key;
pub mod laws;
pub mod spec;
