pub mod domain;
pub mod error;
