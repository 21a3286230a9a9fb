pub mod engine;
pub mod errors;
pub mod item;
pub mod laws;
pub mod principal;
pub mod queries;
pub mod store;
