pub mod error;
pub mod memory;
pub mod sled_store;
pub mod traits;
