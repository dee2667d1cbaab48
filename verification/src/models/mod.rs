//! The data the library works on: articles, feeds and users, and the
//! requests that create or change them.

pub mod article;
pub mod feed;
pub mod user;
