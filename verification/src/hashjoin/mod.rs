pub mod error;
pub mod strategy;
pub mod table;
pub mod in_memory;
pub mod smallest;
pub mod executor;
pub mod laws;
