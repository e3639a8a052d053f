//! A minimal HTTP request-dispatch engine: the request and response model,
//! the route table with its path matcher, and the decisions a connection
//! handler takes between reading bytes and writing them back.

pub mod binding;
pub mod config;
pub mod connection;
pub mod constants;
pub mod date;
pub mod decimal;
pub mod logger;
pub mod methods;
pub mod pool;
pub mod request;
pub mod respond;
pub mod response;
pub mod route;
pub mod routes;
pub mod status;
pub mod text;
