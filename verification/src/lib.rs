pub mod commands;
pub mod data;
pub mod errors;
pub mod glob;
pub mod job;
pub mod library;
pub mod namespace;
pub mod printer;
pub mod scope;
pub mod state;
pub mod stream;
pub mod util;
