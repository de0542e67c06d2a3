pub mod csv;
