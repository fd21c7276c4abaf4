pub mod models;
pub mod response;
pub mod routes;
