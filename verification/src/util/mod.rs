pub mod identity_arc;
