//! A go-links redirector: short path keys mapped to destination URLs, the
//! longest-registered-ancestor resolution of request paths, request timing,
//! and the decisions that drive hot reloading of the route table.

pub mod config;
pub mod models;
pub mod reload;
pub mod routing;
pub mod utils;
