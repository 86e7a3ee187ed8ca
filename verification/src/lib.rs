pub mod api;
pub mod business;
pub mod codec;
pub mod entities;
pub mod model;
pub mod search;
pub mod storage;
