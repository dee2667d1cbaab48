//! Core logic of a self-hosted RSS/Atom/JSON feed aggregator: request
//! validation, pagination, feed parsing and normalisation, content cleaning,
//! media handling and authentication decisions.

pub mod config;
pub mod text;
pub mod errors;
pub mod ext;
pub mod models;
pub mod services;
pub mod handlers;
