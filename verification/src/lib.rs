pub mod auth;
pub mod fetch;
pub mod hashing;
pub mod model;
pub mod plan;
pub mod rows;
pub mod storage;
pub mod urls;
