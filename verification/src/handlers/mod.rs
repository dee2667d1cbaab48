//! What the web pages and API endpoints decide, apart from the HTTP
//! plumbing: form checks, page defaults and the rows a page shows.

pub mod forms;
pub mod pages;
