pub mod codec;
pub mod models;
pub mod requests;
pub mod routes;
pub mod salt;
pub mod store;
pub mod transaction;
