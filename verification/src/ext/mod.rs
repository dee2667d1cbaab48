//! Bindings to the outside crates that the library computes with. Every
//! function here is a trusted item: Verus believes its contract, which
//! restates what the crate's source or documentation shows.

pub mod checks;
pub mod digests;
pub mod feed_docs;
pub mod jwt;
pub mod markup;
pub mod outline_docs;
pub mod regex_scan;
pub mod time_ops;
pub mod url_ops;
