pub mod input;
pub mod ps;
pub mod stream;
pub mod var;
