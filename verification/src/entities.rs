pub mod board;
pub mod entry;
pub mod ident;
pub mod label;
