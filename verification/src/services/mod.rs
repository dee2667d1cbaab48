//! The decisions of the services: what a database query is asked, what its
//! rows become, and what each outcome is answered with. The database and
//! network calls themselves are made by the application around the library.

pub mod article;
pub mod auth;
pub mod user;
pub mod cleaner;
pub mod media;
pub mod crawler;
pub mod feed;
